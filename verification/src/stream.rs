//! What a stream of frames means, byte by byte, and the laws that tie the
//! multiplexer to the demultiplexer: whatever frames one side writes, and
//! however the transport cuts the bytes, the other side reads the same
//! headers and the same payload bytes, in the same order.

use crate::demux::{start, step, view_wf, DemuxEvent, DemuxView};
use crate::frame::{lemma_read_wire, read_fields, wire_bytes, Direction, HeaderFields, HEADER_SIZE};
use crate::mux::frame_bytes;
use vstd::prelude::*;

verus! {

/// What a reader learns from a stream: that a frame begins, or one byte of a
/// frame's payload.
pub enum Item {
    /// A header was completed.
    Open(HeaderFields),
    /// One payload byte of the frame with this header.
    Data(HeaderFields, u8),
}

/// The state after a header with fields `f` is complete.
pub open spec fn after_header(f: HeaderFields) -> DemuxView {
    if f.payload_length == 0 {
        start()
    } else {
        DemuxView::AwaitingPayload(f, f.payload_length as nat)
    }
}

/// The stream read one byte at a time: the state after `b` and what `b` tells.
pub open spec fn feed_byte(s: DemuxView, b: u8) -> (DemuxView, Seq<Item>) {
    match s {
        DemuxView::AwaitingHeader(got) => {
            let all = got.push(b);
            if all.len() >= HEADER_SIZE {
                let f = read_fields(all);
                (after_header(f), seq![Item::Open(f)])
            } else {
                (DemuxView::AwaitingHeader(all), Seq::empty())
            }
        },
        DemuxView::AwaitingPayload(f, remaining) => {
            let next = if remaining <= 1 {
                start()
            } else {
                DemuxView::AwaitingPayload(f, (remaining - 1) as nat)
            };
            (next, seq![Item::Data(f, b)])
        },
    }
}

/// The stream read one byte at a time: the state after all of `data` and
/// everything `data` tells, in order.
pub open spec fn trace(s: DemuxView, data: Seq<u8>) -> (DemuxView, Seq<Item>)
    decreases data.len(),
{
    if data.len() == 0 {
        (s, Seq::empty())
    } else {
        let (s1, items1) = trace(s, data.drop_last());
        let (s2, items2) = feed_byte(s1, data.last());
        (s2, items1 + items2)
    }
}

/// The payload bytes `data` as items of the frame with header `f`.
pub open spec fn data_items(f: HeaderFields, data: Seq<u8>) -> Seq<Item> {
    Seq::new(data.len(), |i: int| Item::Data(f, data[i]))
}

/// What an event of the parser tells, item by item.
pub open spec fn items_of(e: DemuxEvent) -> Seq<Item> {
    match e {
        DemuxEvent::Continue => Seq::empty(),
        DemuxEvent::HeaderReceived(f) => seq![Item::Open(f)],
        DemuxEvent::DataAppend(f, _, data) => data_items(f, data),
    }
}

/// The parser called again and again on what is left of `data`, until
/// nothing is left: the state it ends in and what its events tell, in order.
pub open spec fn run(s: DemuxView, data: Seq<u8>) -> (DemuxView, Seq<Item>)
    decreases data.len(),
{
    let (s1, n, e) = step(s, data);
    if data.len() == 0 || n == 0 || n > data.len() {
        (s, Seq::empty())
    } else {
        let (s2, items) = run(s1, data.skip(n as int));
        (s2, items_of(e) + items)
    }
}

/// The chunks one after the other, as one sequence of bytes.
pub open spec fn concat(chunks: Seq<Seq<u8>>) -> Seq<u8>
    decreases chunks.len(),
{
    if chunks.len() == 0 {
        Seq::empty()
    } else {
        concat(chunks.drop_last()) + chunks.last()
    }
}

/// The parser run on each chunk in turn: the state it ends in and what its
/// events tell, in order.
pub open spec fn run_chunks(s: DemuxView, chunks: Seq<Seq<u8>>) -> (DemuxView, Seq<Item>)
    decreases chunks.len(),
{
    if chunks.len() == 0 {
        (s, Seq::empty())
    } else {
        let (s1, items1) = run_chunks(s, chunks.drop_last());
        let (s2, items2) = run(s1, chunks.last());
        (s2, items1 + items2)
    }
}

/// Reading `a` and then `b` is reading `a + b`.
pub proof fn lemma_trace_concat(s: DemuxView, a: Seq<u8>, b: Seq<u8>)
    ensures
        trace(s, a + b) == ({
            let (s1, items1) = trace(s, a);
            let (s2, items2) = trace(s1, b);
            (s2, items1 + items2)
        }),
    decreases b.len(),
{
    let (s1, items1) = trace(s, a);
    if b.len() == 0 {
        assert(a + b =~= a);
        assert(items1 + Seq::<Item>::empty() =~= items1);
    } else {
        lemma_trace_concat(s, a, b.drop_last());
        assert((a + b).drop_last() =~= a + b.drop_last());
        assert((a + b).last() == b.last());
        let (sm, itemsm) = trace(s1, b.drop_last());
        let (s2, items2) = feed_byte(sm, b.last());
        assert((items1 + itemsm) + items2 =~= items1 + (itemsm + items2));
    }
}

/// Reading keeps the parser in a state it can be in.
pub proof fn lemma_trace_wf(s: DemuxView, data: Seq<u8>)
    requires
        view_wf(s),
    ensures
        view_wf(trace(s, data).0),
    decreases data.len(),
{
    if data.len() > 0 {
        lemma_trace_wf(s, data.drop_last());
        let s1 = trace(s, data.drop_last()).0;
        match s1 {
            DemuxView::AwaitingHeader(got) => {
                let f = read_fields(got.push(data.last()));
            },
            DemuxView::AwaitingPayload(f, remaining) => {},
        }
    }
}

/// Bytes that do not complete the header are kept, and tell nothing.
proof fn lemma_header_bytes(got: Seq<u8>, data: Seq<u8>)
    requires
        got.len() + data.len() < HEADER_SIZE,
    ensures
        trace(DemuxView::AwaitingHeader(got), data) == (
            DemuxView::AwaitingHeader(got + data),
            Seq::<Item>::empty(),
        ),
    decreases data.len(),
{
    if data.len() == 0 {
        assert(got + data =~= got);
    } else {
        lemma_header_bytes(got, data.drop_last());
        assert((got + data.drop_last()).push(data.last()) =~= got + data);
        assert(Seq::<Item>::empty() + Seq::<Item>::empty() =~= Seq::<Item>::empty());
    }
}

/// The bytes that complete a header open its frame.
proof fn lemma_header_done(got: Seq<u8>, data: Seq<u8>)
    requires
        got.len() + data.len() == HEADER_SIZE,
        data.len() > 0,
    ensures
        trace(DemuxView::AwaitingHeader(got), data) == (
            after_header(read_fields(got + data)),
            seq![Item::Open(read_fields(got + data))],
        ),
{
    lemma_header_bytes(got, data.drop_last());
    assert((got + data.drop_last()).push(data.last()) =~= got + data);
    assert(Seq::<Item>::empty() + seq![Item::Open(read_fields(got + data))] =~= seq![
        Item::Open(read_fields(got + data)),
    ]);
}

/// Payload bytes are told one by one, and the last one ends the frame.
proof fn lemma_payload_bytes(f: HeaderFields, remaining: nat, data: Seq<u8>)
    requires
        data.len() <= remaining,
        0 < remaining,
    ensures
        trace(DemuxView::AwaitingPayload(f, remaining), data) == (
            if data.len() == remaining {
                start()
            } else {
                DemuxView::AwaitingPayload(f, (remaining - data.len()) as nat)
            },
            data_items(f, data),
        ),
    decreases data.len(),
{
    if data.len() == 0 {
        assert(data_items(f, data) =~= Seq::<Item>::empty());
    } else {
        lemma_payload_bytes(f, remaining, data.drop_last());
        assert(data_items(f, data.drop_last()) + seq![Item::Data(f, data.last())] =~= data_items(
            f,
            data,
        ));
    }
}

/// One call of the parser tells what reading the bytes it takes, one at a
/// time, tells; it takes at least one byte of data that is not empty.
pub proof fn lemma_step_is_trace(s: DemuxView, data: Seq<u8>)
    requires
        view_wf(s),
    ensures
        step(s, data).1 <= data.len(),
        data.len() > 0 ==> step(s, data).1 > 0,
        view_wf(step(s, data).0),
        trace(s, data.take(step(s, data).1 as int)) == (step(s, data).0, items_of(step(s, data).2)),
{
    let (s1, n, e) = step(s, data);
    if data.len() == 0 {
        assert(data.take(0) =~= Seq::<u8>::empty());
    } else {
        match s {
            DemuxView::AwaitingHeader(got) => {
                let need = (HEADER_SIZE - got.len()) as nat;
                if data.len() >= need {
                    lemma_header_done(got, data.take(need as int));
                } else {
                    assert(data.take(data.len() as int) =~= data);
                    lemma_header_bytes(got, data);
                }
            },
            DemuxView::AwaitingPayload(f, remaining) => {
                if remaining <= data.len() {
                    lemma_payload_bytes(f, remaining, data.take(remaining as int));
                } else {
                    assert(data.take(data.len() as int) =~= data);
                    lemma_payload_bytes(f, remaining, data);
                }
            },
        }
    }
}

/// Calling the parser until nothing is left tells what reading the bytes
/// one at a time tells.
pub proof fn lemma_run_is_trace(s: DemuxView, data: Seq<u8>)
    requires
        view_wf(s),
    ensures
        run(s, data) == trace(s, data),
    decreases data.len(),
{
    if data.len() > 0 {
        let (s1, n, e) = step(s, data);
        lemma_step_is_trace(s, data);
        lemma_run_is_trace(s1, data.skip(n as int));
        lemma_trace_concat(s, data.take(n as int), data.skip(n as int));
        assert(data.take(n as int) + data.skip(n as int) =~= data);
    }
}

/// However the transport cuts a stream into chunks, the parser, run on each
/// chunk in turn, tells what the whole stream tells.
pub proof fn lemma_chunking(s: DemuxView, chunks: Seq<Seq<u8>>)
    requires
        view_wf(s),
    ensures
        run_chunks(s, chunks) == trace(s, concat(chunks)),
    decreases chunks.len(),
{
    if chunks.len() > 0 {
        lemma_chunking(s, chunks.drop_last());
        let s1 = trace(s, concat(chunks.drop_last())).0;
        lemma_trace_wf(s, concat(chunks.drop_last()));
        lemma_run_is_trace(s1, chunks.last());
        lemma_trace_concat(s, concat(chunks.drop_last()), chunks.last());
    }
}

/// A frame as it was handed to the multiplexer.
pub struct Frame {
    /// The header the multiplexer wrote.
    pub header: HeaderFields,
    /// The bytes that follow it.
    pub payload: Seq<u8>,
}

impl Frame {
    /// The header names an identifier of 15 bits and announces the payload's length.
    pub open spec fn wf(self) -> bool {
        self.header.id < 0x8000 && self.header.payload_length == self.payload.len()
    }

    /// What the frame tells a reader: that it begins, then each of its bytes.
    pub open spec fn items(self) -> Seq<Item> {
        seq![Item::Open(self.header)] + data_items(self.header, self.payload)
    }
}

/// Whether every frame is well formed.
pub open spec fn all_wf(frames: Seq<Frame>) -> bool {
    forall|i: int| 0 <= i < frames.len() ==> (#[trigger] frames[i]).wf()
}

/// The bytes of `frames` on the wire, one frame after the other.
pub open spec fn wire(frames: Seq<Frame>) -> Seq<u8>
    decreases frames.len(),
{
    if frames.len() == 0 {
        Seq::empty()
    } else {
        wire(frames.drop_last()) + frame_bytes(frames.last().header, frames.last().payload)
    }
}

/// What `frames` tell a reader, one frame after the other.
pub open spec fn delivered(frames: Seq<Frame>) -> Seq<Item>
    decreases frames.len(),
{
    if frames.len() == 0 {
        Seq::empty()
    } else {
        delivered(frames.drop_last()) + frames.last().items()
    }
}

/// Between two frames, the bytes of one frame tell that frame and leave the
/// parser between two frames.
pub proof fn lemma_one_frame(frame: Frame)
    requires
        frame.wf(),
    ensures
        trace(start(), frame_bytes(frame.header, frame.payload)) == (start(), frame.items()),
{
    let h = frame.header;
    let head = wire_bytes(h);
    lemma_read_wire(h);
    lemma_header_done(Seq::empty(), head);
    assert(Seq::<u8>::empty() + head =~= head);
    lemma_trace_concat(start(), head, frame.payload);
    if h.payload_length == 0 {
        assert(frame.payload =~= Seq::<u8>::empty());
        assert(data_items(h, frame.payload) =~= Seq::<Item>::empty());
    } else {
        lemma_payload_bytes(h, h.payload_length as nat, frame.payload);
    }
}

/// What the multiplexer writes, the demultiplexer reads: the bytes of any
/// frames tell those frames, header by header and byte by byte, and leave the
/// parser between two frames.
pub proof fn lemma_mux_demux(frames: Seq<Frame>)
    requires
        all_wf(frames),
    ensures
        trace(start(), wire(frames)) == (start(), delivered(frames)),
    decreases frames.len(),
{
    if frames.len() > 0 {
        let before = frames.drop_last();
        assert(all_wf(before)) by {
            assert forall|i: int| 0 <= i < before.len() implies (#[trigger] before[i]).wf() by {
                assert(before[i] == frames[i]);
            }
        }
        lemma_mux_demux(before);
        lemma_one_frame(frames.last());
        lemma_trace_concat(
            start(),
            wire(before),
            frame_bytes(frames.last().header, frames.last().payload),
        );
    }
}

/// Frames that are written by the multiplexer and reach the demultiplexer in
/// chunks, cut anywhere, are read as the frames that were written.
pub proof fn lemma_any_chunking(frames: Seq<Frame>, chunks: Seq<Seq<u8>>)
    requires
        all_wf(frames),
        concat(chunks) == wire(frames),
    ensures
        run_chunks(start(), chunks) == (start(), delivered(frames)),
{
    lemma_chunking(start(), chunks);
    lemma_mux_demux(frames);
}

/// The channel end that receives the frame with header `f`: the channel the
/// header names, on the side opposite to the sender's.
pub open spec fn receiver_of(f: HeaderFields) -> (u16, Direction) {
    (f.id, f.direction().flip())
}

/// The payload bytes among `items` that the channel end `(id, direction)`
/// receives, in order.
pub open spec fn channel_bytes(items: Seq<Item>, id: u16, direction: Direction) -> Seq<u8>
    decreases items.len(),
{
    if items.len() == 0 {
        Seq::empty()
    } else {
        let before = channel_bytes(items.drop_last(), id, direction);
        match items.last() {
            Item::Data(f, b) => if receiver_of(f) == (id, direction) {
                before.push(b)
            } else {
                before
            },
            Item::Open(_) => before,
        }
    }
}

/// The payloads among `frames` that are sent to the channel end
/// `(id, direction)`, one after the other.
pub open spec fn sent_to(frames: Seq<Frame>, id: u16, direction: Direction) -> Seq<u8>
    decreases frames.len(),
{
    if frames.len() == 0 {
        Seq::empty()
    } else {
        let before = sent_to(frames.drop_last(), id, direction);
        if receiver_of(frames.last().header) == (id, direction) {
            before + frames.last().payload
        } else {
            before
        }
    }
}

/// What a channel end receives of `a + b` is what it receives of `a`, then
/// what it receives of `b`.
pub proof fn lemma_channel_bytes_concat(a: Seq<Item>, b: Seq<Item>, id: u16, direction: Direction)
    ensures
        channel_bytes(a + b, id, direction) == channel_bytes(a, id, direction) + channel_bytes(
            b,
            id,
            direction,
        ),
    decreases b.len(),
{
    if b.len() == 0 {
        assert(a + b =~= a);
        assert(channel_bytes(a, id, direction) + Seq::<u8>::empty() =~= channel_bytes(
            a,
            id,
            direction,
        ));
    } else {
        lemma_channel_bytes_concat(a, b.drop_last(), id, direction);
        assert((a + b).drop_last() =~= a + b.drop_last());
        assert((a + b).last() == b.last());
        let x = channel_bytes(a, id, direction);
        let y = channel_bytes(b.drop_last(), id, direction);
        match b.last() {
            Item::Data(f, byte) => {
                if receiver_of(f) == (id, direction) {
                    assert((x + y).push(byte) =~= x + y.push(byte));
                }
            },
            Item::Open(_) => {},
        }
    }
}

/// Of the payload bytes of one frame, the receiving end gets all, in order,
/// and every other end none.
pub proof fn lemma_channel_bytes_of_data(
    f: HeaderFields,
    data: Seq<u8>,
    id: u16,
    direction: Direction,
)
    ensures
        channel_bytes(data_items(f, data), id, direction) == if receiver_of(f) == (id, direction) {
            data
        } else {
            Seq::<u8>::empty()
        },
    decreases data.len(),
{
    if data.len() > 0 {
        lemma_channel_bytes_of_data(f, data.drop_last(), id, direction);
        assert(data_items(f, data).drop_last() =~= data_items(f, data.drop_last()));
        assert(data_items(f, data).last() == Item::Data(f, data.last()));
        if receiver_of(f) == (id, direction) {
            assert(data.drop_last().push(data.last()) =~= data);
        }
    } else {
        assert(data =~= Seq::<u8>::empty());
    }
}

/// Frames of different channels may be interleaved in any way: each channel
/// end receives the payloads that were sent to it, whole and in the order in
/// which they were sent, and nothing of any other channel's.
pub proof fn lemma_no_crossover(frames: Seq<Frame>, id: u16, direction: Direction)
    ensures
        channel_bytes(delivered(frames), id, direction) == sent_to(frames, id, direction),
    decreases frames.len(),
{
    if frames.len() > 0 {
        let last = frames.last();
        lemma_no_crossover(frames.drop_last(), id, direction);
        lemma_channel_bytes_concat(delivered(frames.drop_last()), last.items(), id, direction);
        lemma_channel_bytes_concat(
            seq![Item::Open(last.header)],
            data_items(last.header, last.payload),
            id,
            direction,
        );
        lemma_channel_bytes_of_data(last.header, last.payload, id, direction);
        assert(channel_bytes(seq![Item::Open(last.header)], id, direction) =~= Seq::<u8>::empty())
            by {
            let one = seq![Item::Open(last.header)];
            assert(one.drop_last() =~= Seq::<Item>::empty());
            assert(one.last() == Item::Open(last.header));
            assert(channel_bytes(one.drop_last(), id, direction) =~= Seq::<u8>::empty());
        }
        assert(Seq::<u8>::empty() + last.payload =~= last.payload);
        let before = sent_to(frames.drop_last(), id, direction);
        assert(before + Seq::<u8>::empty() =~= before);
    }
}

} // verus!
