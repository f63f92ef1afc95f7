//! What the two tasks of a connection do between two waits: the writer
//! drains the channels into the multiplexer, the reader hands what the
//! demultiplexer finds to the channels.

use crate::buf::Buf;
use crate::channels_map::{first_for, has_entry, ChannelsMap};
use crate::demux::{step, view_wf, Demux, DemuxEvent, DemuxResult, DemuxView};
use crate::endpoint::{AsyncRawChannel, EndView};
use crate::frame::{Direction, HeaderFields, Id, OnDirection, Time, HEADER_SIZE, MAX_PAYLOAD};
use crate::mux::{egress_fields, frame_bytes, Mux};
use crate::stream::{
    channel_bytes, items_of, lemma_channel_bytes_concat, lemma_channel_bytes_of_data,
    lemma_step_is_trace, lemma_trace_concat, trace, Item,
};
use vstd::prelude::*;

verus! {

/// The least payload for which a frame is begun: with less room than a
/// header and this many bytes, the multiplexer counts as full.
pub const PAYLOAD_MINIMUM: usize = 4;

/// What came of offering one end of a channel to the multiplexer.
#[derive(Clone, Copy, Debug, PartialEq, Eq, Structural)]
pub enum MuxResult {
    /// The multiplexer has no room for a frame worth sending.
    Full,
    /// The end has no message on its way out.
    NothingToSend,
    /// A frame was written.
    Written,
}

/// The number of payload bytes of the frame that is written for a message of
/// which `left` bytes are left, with `room` bytes of room: as many as fit
/// behind a header, and no more than a frame can announce.
pub open spec fn payload_size(room: int, left: nat) -> nat {
    let fits = room - HEADER_SIZE;
    let most = if fits < MAX_PAYLOAD {
        fits
    } else {
        MAX_PAYLOAD as int
    };
    if left < most {
        left
    } else if most < 0 {
        0
    } else {
        most as nat
    }
}

/// One end of a channel is offered to the multiplexer at `time`: what the
/// multiplexer holds afterwards, what the end holds, and what came of it.
///
/// With room for less than a header and `PAYLOAD_MINIMUM` bytes nothing
/// happens. Otherwise one frame is written with the front of the message
/// that the end is sending, and the end forgets the message once all of it
/// was written.
#[verifier::opaque]
pub open spec fn drain(pending: Seq<u8>, capacity: nat, id: Id, end: EndView, time: u32) -> (
    Seq<u8>,
    EndView,
    MuxResult,
) {
    if capacity - pending.len() < HEADER_SIZE + PAYLOAD_MINIMUM {
        (pending, end, MuxResult::Full)
    } else {
        match end.sending {
            None => (pending, end, MuxResult::NothingToSend),
            Some(left) => {
                let n = payload_size(capacity - pending.len(), left.len());
                let part = left.take(n as int);
                (
                    pending + frame_bytes(egress_fields(time, id, end.direction, part), part),
                    EndView {
                        sending: if n == left.len() {
                            None
                        } else {
                            Some(left.skip(n as int))
                        },
                        ..end
                    },
                    MuxResult::Written,
                )
            },
        }
    }
}

/// A multiplexer that is found full is left as it was, and so is the end.
pub proof fn lemma_drain_full(pending: Seq<u8>, capacity: nat, id: Id, end: EndView, time: u32)
    ensures
        drain(pending, capacity, id, end, time).2 is Full ==> drain(
            pending,
            capacity,
            id,
            end,
            time,
        ) == (pending, end, MuxResult::Full),
{
    reveal(drain);
}

/// Offers one end of a channel to the multiplexer, stamping the frame with
/// `time`: the outcome is what `drain` says.
pub fn mux_chan_at(mux: &mut Mux, time: Time, channel_id: Id, channel: &mut AsyncRawChannel) -> (r:
    MuxResult)
    ensures
        final(mux).capacity() == old(mux).capacity(),
        (final(mux)@, final(channel)@, r) == drain(
            old(mux)@,
            old(mux).capacity(),
            channel_id,
            old(channel)@,
            time.0,
        ),
        old(mux)@.len() <= final(mux)@.len() <= final(mux).capacity(),
        final(mux).written() == (old(mux).written() + final(mux)@.len() - old(mux)@.len())
            % 0x1_0000_0000_0000_0000,
{
    reveal(drain);
    let room = mux.writable();
    if room < HEADER_SIZE + PAYLOAD_MINIMUM {
        return MuxResult::Full;
    }
    let direction = channel.direction();
    match channel.take_sending() {
        None => MuxResult::NothingToSend,
        Some(mut sending) => {
            let left = sending.left();
            let fits = room - HEADER_SIZE;
            let most = if fits < MAX_PAYLOAD {
                fits
            } else {
                MAX_PAYLOAD
            };
            let n = if left.len() < most {
                left.len()
            } else {
                most
            };
            let part = vstd::slice::slice_subrange(left, 0, n);
            let accepted = mux.egress_at(time, channel_id, direction, part);
            assert(accepted is Ok);
            sending.advance(n);
            if sending.left().len() > 0 {
                channel.put_sending(sending);
            }
            MuxResult::Written
        },
    }
}

/// Offers one end of a channel to the multiplexer, stamping the frame with
/// the current time: the outcome is what `drain` says for some time.
pub fn mux_chan(mux: &mut Mux, channel_id: Id, channel: &mut AsyncRawChannel) -> (r: MuxResult)
    ensures
        final(mux).capacity() == old(mux).capacity(),
        exists|time: u32|
            (final(mux)@, final(channel)@, r) == #[trigger] drain(
                old(mux)@,
                old(mux).capacity(),
                channel_id,
                old(channel)@,
                time,
            ),
        old(mux)@.len() <= final(mux)@.len() <= final(mux).capacity(),
        final(mux).written() == (old(mux).written() + final(mux)@.len() - old(mux)@.len())
            % 0x1_0000_0000_0000_0000,
{
    let time = Time::now();
    mux_chan_at(mux, time, channel_id, channel)
}

/// The ends of a channel, each as a value of the model.
pub open spec fn ends_view(ends: OnDirection<AsyncRawChannel>) -> OnDirection<EndView> {
    match ends {
        OnDirection::Initiator(a) => OnDirection::Initiator(a@),
        OnDirection::Responder(b) => OnDirection::Responder(b@),
        OnDirection::InitiatorAndResponder(a, b) => OnDirection::InitiatorAndResponder(a@, b@),
    }
}

/// The directory of a connection, each end as a value of the model.
pub open spec fn directory_view(entries: Seq<(Id, OnDirection<AsyncRawChannel>)>) -> Seq<
    (Id, OnDirection<EndView>),
> {
    Seq::new(entries.len(), |i: int| (entries[i].0, ends_view(entries[i].1)))
}

/// The ends of one channel are offered to the multiplexer, the initiator's
/// at `times.0` and then the responder's at `times.1`: what the multiplexer
/// holds afterwards, what the ends hold, and whether the multiplexer was
/// found full. An end that comes after a full multiplexer is not offered.
pub open spec fn visit(
    pending: Seq<u8>,
    capacity: nat,
    id: Id,
    ends: OnDirection<EndView>,
    times: (u32, u32),
) -> (Seq<u8>, OnDirection<EndView>, bool) {
    match ends {
        OnDirection::Initiator(a) => {
            let (p, a1, r) = drain(pending, capacity, id, a, times.0);
            (p, OnDirection::Initiator(a1), r is Full)
        },
        OnDirection::Responder(b) => {
            let (p, b1, r) = drain(pending, capacity, id, b, times.1);
            (p, OnDirection::Responder(b1), r is Full)
        },
        OnDirection::InitiatorAndResponder(a, b) => {
            let (p, a1, r) = drain(pending, capacity, id, a, times.0);
            if r is Full {
                (p, OnDirection::InitiatorAndResponder(a1, b), true)
            } else {
                let (p2, b1, r2) = drain(p, capacity, id, b, times.1);
                (p2, OnDirection::InitiatorAndResponder(a1, b1), r2 is Full)
            }
        },
    }
}

/// The multiplexer and the directory in the course of one round.
pub struct RoundState {
    /// The outbound bytes the multiplexer holds.
    pub pending: Seq<u8>,
    /// The channels, in the order in which they are visited.
    pub entries: Seq<(Id, OnDirection<EndView>)>,
    /// Whether the multiplexer was found full.
    pub full: bool,
}

/// One round of the writer, up to the first `count` channels: the channels
/// are visited in the order of the directory, the channel at `i` at the
/// times `times[i]`, until the multiplexer is found full.
pub open spec fn round(from: RoundState, capacity: nat, times: Seq<(u32, u32)>, count: nat) -> RoundState
    decreases count,
{
    if count == 0 {
        from
    } else {
        let before = round(from, capacity, times, (count - 1) as nat);
        if before.full || count > before.entries.len() {
            before
        } else {
            let (id, ends) = before.entries[count - 1];
            let (pending, ends1, full) = visit(before.pending, capacity, id, ends, times[count - 1]);
            RoundState { pending, entries: before.entries.update(count - 1, (id, ends1)), full }
        }
    }
}

/// A round is decided by the times of the channels it visits.
pub proof fn lemma_round_times(
    from: RoundState,
    capacity: nat,
    times1: Seq<(u32, u32)>,
    times2: Seq<(u32, u32)>,
    count: nat,
)
    requires
        forall|i: int| 0 <= i < count ==> times1[i] == times2[i],
    ensures
        round(from, capacity, times1, count) == round(from, capacity, times2, count),
    decreases count,
{
    if count > 0 {
        lemma_round_times(from, capacity, times1, times2, (count - 1) as nat);
    }
}

/// A round visits nothing once the multiplexer was found full.
pub proof fn lemma_round_full(
    from: RoundState,
    capacity: nat,
    times: Seq<(u32, u32)>,
    stopped: nat,
    count: nat,
)
    requires
        round(from, capacity, times, stopped).full,
        stopped <= count,
    ensures
        round(from, capacity, times, count) == round(from, capacity, times, stopped),
    decreases count,
{
    if count > stopped {
        lemma_round_full(from, capacity, times, stopped, (count - 1) as nat);
    }
}

/// Offers the ends of one channel to the multiplexer, the initiator's
/// first: the outcome is what `visit` says for some times.
pub fn mux_entry(mux: &mut Mux, channel_id: Id, ends: &mut OnDirection<AsyncRawChannel>) -> (full:
    bool)
    ensures
        final(mux).capacity() == old(mux).capacity(),
        exists|times: (u32, u32)|
            (final(mux)@, ends_view(*final(ends)), full) == #[trigger] visit(
                old(mux)@,
                old(mux).capacity(),
                channel_id,
                ends_view(*old(ends)),
                times,
            ),
        old(mux)@.len() <= final(mux)@.len() <= final(mux).capacity(),
        final(mux).written() == (old(mux).written() + final(mux)@.len() - old(mux)@.len())
            % 0x1_0000_0000_0000_0000,
{
    let ghost cap = mux.capacity();
    let ghost pending = mux@;
    let ghost before = ends_view(*ends);
    match ends {
        OnDirection::Initiator(c) => {
            let r = mux_chan(mux, channel_id, c);
            proof {
                let t = choose|t: u32|
                    (mux@, c@, r) == #[trigger] drain(pending, cap, channel_id, old(ends)->Initiator_0@, t);
                assert((mux@, ends_view(*ends), r is Full) == visit(
                    pending,
                    cap,
                    channel_id,
                    before,
                    (t, 0u32),
                ));
            }
            match r {
                MuxResult::Full => true,
                _ => false,
            }
        },
        OnDirection::Responder(c) => {
            let r = mux_chan(mux, channel_id, c);
            proof {
                let t = choose|t: u32|
                    (mux@, c@, r) == #[trigger] drain(pending, cap, channel_id, old(ends)->Responder_0@, t);
                assert((mux@, ends_view(*ends), r is Full) == visit(
                    pending,
                    cap,
                    channel_id,
                    before,
                    (0u32, t),
                ));
            }
            match r {
                MuxResult::Full => true,
                _ => false,
            }
        },
        OnDirection::InitiatorAndResponder(c1, c2) => {
            let r1 = mux_chan(mux, channel_id, c1);
            let ghost t1 = choose|t: u32|
                (mux@, c1@, r1) == #[trigger] drain(
                    pending,
                    cap,
                    channel_id,
                    old(ends)->InitiatorAndResponder_0@,
                    t,
                );
            match r1 {
                MuxResult::Full => {
                    proof {
                        assert((mux@, ends_view(*ends), true) == visit(
                            pending,
                            cap,
                            channel_id,
                            before,
                            (t1, 0u32),
                        ));
                    }
                    true
                },
                _ => {
                    let ghost pending1 = mux@;
                    let r2 = mux_chan(mux, channel_id, c2);
                    proof {
                        let t2 = choose|t: u32|
                            (mux@, c2@, r2) == #[trigger] drain(
                                pending1,
                                cap,
                                channel_id,
                                old(ends)->InitiatorAndResponder_1@,
                                t,
                            );
                        assert((mux@, ends_view(*ends), r2 is Full) == visit(
                            pending,
                            cap,
                            channel_id,
                            before,
                            (t1, t2),
                        ));
                    }
                    match r2 {
                        MuxResult::Full => true,
                        _ => false,
                    }
                },
            }
        },
    }
}

/// One round of the writer: every channel of the directory is offered to
/// the multiplexer, in the order of the directory, until the multiplexer is
/// found full. Returns whether it was.
///
/// Channels that come first in the directory are served first in every
/// round: with little room, those behind them wait.
pub fn mux_round(mux: &mut Mux, channels: &mut ChannelsMap<OnDirection<AsyncRawChannel>>) -> (full:
    bool)
    ensures
        final(mux).capacity() == old(mux).capacity(),
        exists|times: Seq<(u32, u32)>|
            times.len() == old(channels)@.len() && (RoundState {
                pending: final(mux)@,
                entries: directory_view(final(channels)@),
                full,
            }) == #[trigger] round(
                RoundState {
                    pending: old(mux)@,
                    entries: directory_view(old(channels)@),
                    full: false,
                },
                old(mux).capacity(),
                times,
                old(channels)@.len(),
            ),
        final(mux).written() == (old(mux).written() + final(mux)@.len() - old(mux)@.len())
            % 0x1_0000_0000_0000_0000,
{
    let ghost from = RoundState {
        pending: mux@,
        entries: directory_view(channels@),
        full: false,
    };
    let ghost cap = mux.capacity();
    let ghost mut times: Seq<(u32, u32)> = Seq::empty();
    let n = channels.len();
    let mut full = false;
    let mut i: usize = 0;
    while i < n && !full
        invariant
            i <= n == channels@.len(),
            times.len() == i,
            mux.capacity() == cap,
            old(mux)@.len() <= mux@.len(),
            from.entries.len() == n,
            (RoundState { pending: mux@, entries: directory_view(channels@), full }) == round(
                from,
                cap,
                times,
                i as nat,
            ),
            mux.written() == (old(mux).written() + mux@.len() - old(mux)@.len())
                % 0x1_0000_0000_0000_0000,
        decreases n - i,
    {
        let ghost pending = mux@;
        let ghost entries = channels@;
        let id = channels.id_at(i);
        let ends = channels.channel_at_mut(i);
        let ghost ends_before = *ends;
        full = mux_entry(mux, id, ends);
        proof {
            let t = choose|t: (u32, u32)|
                (mux@, ends_view(*ends), full) == #[trigger] visit(
                    pending,
                    cap,
                    id,
                    ends_view(ends_before),
                    t,
                );
            let longer = times.push(t);
            lemma_round_times(from, cap, times, longer, i as nat);
            assert(directory_view(channels@) =~= directory_view(entries).update(
                i as int,
                (id, ends_view(*ends)),
            ));
            times = longer;
        }
        i += 1;
    }
    proof {
        let padded = times + Seq::new((n - i) as nat, |k: int| (0u32, 0u32));
        lemma_round_times(from, cap, times, padded, i as nat);
        if i < n {
            lemma_round_full(from, cap, padded, i as nat, n as nat);
        }
        assert(padded.len() == n);
    }
    full
}

/// Why the reader gives a connection up.
#[derive(Clone, Debug)]
pub enum DemuxError {
    /// A frame is for a channel end that the connection does not have.
    InvalidChannel(Id, Direction),
    /// The channel end that a frame is for has no room for its payload; with
    /// the channel and the side that sent the frame.
    FullChannel(Id, Direction),
}

/// Why the reader gives a connection up, as a value of the model.
pub enum DemuxFailure {
    /// A frame is for a channel end that the connection does not have.
    InvalidChannel(u16, Direction),
    /// The channel end that a frame is for has no room for its payload; with
    /// the channel and the side that sent the frame.
    FullChannel(u16, Direction),
}

impl View for DemuxError {
    type V = DemuxFailure;

    open spec fn view(&self) -> DemuxFailure {
        match *self {
            DemuxError::InvalidChannel(id, direction) => DemuxFailure::InvalidChannel(
                id.value(),
                direction,
            ),
            DemuxError::FullChannel(id, direction) => DemuxFailure::FullChannel(
                id.value(),
                direction,
            ),
        }
    }
}

/// Whether the entry at `i` is the first of `entries` for the channel `id`.
pub open spec fn is_place(entries: Seq<(Id, OnDirection<EndView>)>, id: u16, i: int) -> bool {
    &&& 0 <= i < entries.len()
    &&& entries[i].0.value() == id
    &&& forall|j: int| 0 <= j < i ==> (#[trigger] entries[j]).0.value() != id
}

/// The place of the first entry of `entries` for the channel `id`.
pub open spec fn place_of(entries: Seq<(Id, OnDirection<EndView>)>, id: u16) -> int {
    choose|i: int| is_place(entries, id, i)
}

/// Whether the connection has the channel end that receives the frame with
/// header `f`: the channel that the header names, on the side opposite to
/// the sender's.
pub open spec fn has_receiver(entries: Seq<(Id, OnDirection<EndView>)>, f: HeaderFields) -> bool {
    &&& exists|i: int| is_place(entries, f.id, i)
    &&& entries[place_of(entries, f.id)].1.at(f.direction().flip()) is Some
}

/// The ends `ends` with `end` in place of the end on side `direction`.
pub open spec fn with_end(ends: OnDirection<EndView>, direction: Direction, end: EndView) -> OnDirection<
    EndView,
> {
    match (ends, direction) {
        (OnDirection::Initiator(_), Direction::Initiator) => OnDirection::Initiator(end),
        (OnDirection::Responder(_), Direction::Responder) => OnDirection::Responder(end),
        (
            OnDirection::InitiatorAndResponder(_, b),
            Direction::Initiator,
        ) => OnDirection::InitiatorAndResponder(end, b),
        (
            OnDirection::InitiatorAndResponder(a, _),
            Direction::Responder,
        ) => OnDirection::InitiatorAndResponder(a, end),
        _ => ends,
    }
}

/// What one event of the demultiplexer does to the channels.
///
/// A header is checked: its frame must be for a channel end that the
/// connection has. Payload bytes are appended, all of them, to what that end
/// has received; where they do not fit, nothing is appended and the
/// connection is given up.
pub open spec fn deliver(entries: Seq<(Id, OnDirection<EndView>)>, e: DemuxEvent) -> (
    Seq<(Id, OnDirection<EndView>)>,
    Option<DemuxFailure>,
) {
    match e {
        DemuxEvent::Continue => (entries, None),
        DemuxEvent::HeaderReceived(f) => if has_receiver(entries, f) {
            (entries, None)
        } else {
            (entries, Some(DemuxFailure::InvalidChannel(f.id, f.direction().flip())))
        },
        DemuxEvent::DataAppend(f, _, data) => if has_receiver(entries, f) {
            let i = place_of(entries, f.id);
            let side = f.direction().flip();
            let end = entries[i].1.at(side)->Some_0;
            if end.received.len() + data.len() <= end.capacity {
                let filled = EndView { received: end.received + data, ..end };
                (entries.update(i, (entries[i].0, with_end(entries[i].1, side, filled))), None)
            } else {
                (entries, Some(DemuxFailure::FullChannel(f.id, f.direction())))
            }
        } else {
            (entries, Some(DemuxFailure::InvalidChannel(f.id, f.direction().flip())))
        },
    }
}

/// What the reader does with one chunk of bytes from the transport: the
/// demultiplexer is called on what is left of the chunk, and each event is
/// delivered, until nothing is left or the connection is given up.
pub open spec fn feed(s: DemuxView, entries: Seq<(Id, OnDirection<EndView>)>, data: Seq<u8>) -> (
    DemuxView,
    Seq<(Id, OnDirection<EndView>)>,
    Option<DemuxFailure>,
)
    decreases data.len(),
{
    let (s1, n, e) = step(s, data);
    if data.len() == 0 || n == 0 || n > data.len() {
        (s, entries, None)
    } else {
        let (entries1, failure) = deliver(entries, e);
        if failure is Some {
            (s1, entries1, failure)
        } else {
            feed(s1, entries1, data.skip(n as int))
        }
    }
}

/// The first entry for an identifier is the first entry for its integer.
proof fn lemma_place(entries: Seq<(Id, OnDirection<AsyncRawChannel>)>, id: Id, i: int)
    ensures
        first_for(entries, id, i) <==> is_place(directory_view(entries), id.value(), i),
{
    let model = directory_view(entries);
    if first_for(entries, id, i) {
        assert forall|j: int| 0 <= j < i implies (#[trigger] model[j]).0.value() != id.value() by {
            Id::lemma_value_injective(entries[j].0, id);
        }
    }
    if is_place(model, id.value(), i) {
        Id::lemma_value_injective(entries[i].0, id);
        assert forall|j: int| 0 <= j < i implies (#[trigger] entries[j]).0 != id by {
            Id::lemma_value_injective(entries[j].0, id);
            assert(model[j].0.value() != id.value());
        }
    }
}

/// There is one first entry for a channel at most.
proof fn lemma_one_place(entries: Seq<(Id, OnDirection<EndView>)>, id: u16, i: int)
    requires
        is_place(entries, id, i),
    ensures
        place_of(entries, id) == i,
{
    let j = place_of(entries, id);
    if j < i {
        assert(entries[j].0.value() != id);
    }
    if i < j {
        assert(entries[i].0.value() != id);
    }
}

/// Appends payload bytes to what the end on side `direction` has received,
/// all of them or none, and says whether they found room; `None` where there
/// is no end on that side.
fn receive_at(ends: &mut OnDirection<AsyncRawChannel>, direction: Direction, data: &[u8]) -> (r:
    Option<bool>)
    ensures
        match ends_view(*old(ends)).at(direction) {
            None => r is None && *final(ends) == *old(ends),
            Some(end) => {
                &&& r == Some(end.received.len() + data@.len() <= end.capacity)
                &&& ends_view(*final(ends)) == with_end(
                    ends_view(*old(ends)),
                    direction,
                    EndView {
                        received: Buf::after_append(end.received, end.capacity, data@),
                        ..end
                    },
                )
            },
        },
{
    match ends {
        OnDirection::Initiator(c) => match direction {
            Direction::Initiator => Some(c.receive(data).is_ok()),
            Direction::Responder => None,
        },
        OnDirection::Responder(c) => match direction {
            Direction::Initiator => None,
            Direction::Responder => Some(c.receive(data).is_ok()),
        },
        OnDirection::InitiatorAndResponder(c1, c2) => match direction {
            Direction::Initiator => Some(c1.receive(data).is_ok()),
            Direction::Responder => Some(c2.receive(data).is_ok()),
        },
    }
}

/// Delivers one event of the demultiplexer to the channels, as `deliver`
/// says.
pub fn deliver_event(
    channels: &mut ChannelsMap<OnDirection<AsyncRawChannel>>,
    event: DemuxResult<'_>,
) -> (r: Result<(), DemuxError>)
    ensures
        directory_view(final(channels)@) == deliver(directory_view(old(channels)@), event@).0,
        match deliver(directory_view(old(channels)@), event@).1 {
            None => r is Ok,
            Some(failure) => r matches Err(e) && e@ == failure,
        },
{
    let ghost entries = channels@;
    let ghost model = directory_view(entries);
    match event {
        DemuxResult::Continue => {
            assert(directory_view(channels@) =~= model);
            Ok(())
        },
        DemuxResult::HeaderReceived(header) => {
            let id = header.id();
            let side = header.direction().opposite();
            match channels.index_of(id) {
                None => {
                    proof {
                        assert forall|i: int| !is_place(model, header@.id, i) by {
                            lemma_place(entries, id, i);
                            if first_for(entries, id, i) {
                                assert(has_entry(entries, id));
                            }
                        }
                        assert(!has_receiver(model, header@));
                    }
                    Err(DemuxError::InvalidChannel(id, side))
                },
                Some(i) => {
                    proof {
                        lemma_place(entries, id, i as int);
                        lemma_one_place(model, header@.id, i as int);
                    }
                    let ends = channels.channel_at_mut(i);
                    let has = ends.has_direction(side);
                    proof {
                        assert(directory_view(channels@) =~= model);
                        assert(ends_view(*ends).at(side) is Some <==> ends.at(side) is Some);
                    }
                    if has {
                        assert(has_receiver(model, header@));
                        Ok(())
                    } else {
                        assert(!has_receiver(model, header@));
                        Err(DemuxError::InvalidChannel(id, side))
                    }
                },
            }
        },
        DemuxResult::DataAppend(header, _finished, to_append) => {
            let id = header.id();
            let side = header.direction().opposite();
            match channels.index_of(id) {
                None => {
                    proof {
                        assert forall|i: int| !is_place(model, header@.id, i) by {
                            lemma_place(entries, id, i);
                            if first_for(entries, id, i) {
                                assert(has_entry(entries, id));
                            }
                        }
                        assert(!has_receiver(model, header@));
                    }
                    Err(DemuxError::InvalidChannel(id, side))
                },
                Some(i) => {
                    proof {
                        lemma_place(entries, id, i as int);
                        lemma_one_place(model, header@.id, i as int);
                    }
                    let ends = channels.channel_at_mut(i);
                    let appended = receive_at(ends, side, to_append);
                    proof {
                        assert(directory_view(channels@) =~= model.update(
                            i as int,
                            (entries[i as int].0, ends_view(*ends)),
                        ));
                    }
                    match appended {
                        None => {
                            assert(directory_view(channels@) =~= model);
                            assert(!has_receiver(model, header@));
                            Err(DemuxError::InvalidChannel(id, side))
                        },
                        Some(fits) => {
                            assert(has_receiver(model, header@));
                            if fits {
                                Ok(())
                            } else {
                                assert(directory_view(channels@) =~= model);
                                Err(DemuxError::FullChannel(id, header.direction()))
                            }
                        },
                    }
                },
            }
        },
    }
}

/// Hands one chunk of bytes from the transport to the channels: every frame
/// goes to the channel that its header names, on the side opposite to the
/// sender's. What `feed` says is what is done.
///
/// The connection is given up, and the rest of the chunk left alone, where
/// a frame is for a channel end that the connection does not have, or where
/// an end has no room for the payload bytes that arrive for it.
pub fn demux_chunk(
    demux: &mut Demux,
    channels: &mut ChannelsMap<OnDirection<AsyncRawChannel>>,
    data: &[u8],
) -> (r: Result<(), DemuxError>)
    ensures
        ({
            let (s, entries, failure) = feed(old(demux)@, directory_view(old(channels)@), data@);
            &&& final(demux)@ == s
            &&& directory_view(final(channels)@) == entries
            &&& match failure {
                None => r is Ok,
                Some(f) => r matches Err(e) && e@ == f,
            }
        }),
{
    let mut rest = data;
    while rest.len() > 0
        invariant
            feed(old(demux)@, directory_view(old(channels)@), data@) == feed(
                demux@,
                directory_view(channels@),
                rest@,
            ),
        decreases rest@.len(),
    {
        let ghost before = rest@;
        let (sz, event) = demux.ingress(rest);
        match deliver_event(channels, event) {
            Ok(()) => {},
            Err(e) => {
                return Err(e);
            },
        }
        rest = vstd::slice::slice_subrange(rest, sz, rest.len());
        assert(rest@ == before.skip(sz as int));
    }
    Ok(())
}

/// Whether no channel occurs twice in `entries`.
pub open spec fn distinct(entries: Seq<(Id, OnDirection<EndView>)>) -> bool {
    forall|i: int, j: int|
        0 <= i < j < entries.len() ==> (#[trigger] entries[i]).0.value() != (
        #[trigger] entries[j]).0.value()
}

/// Whether `after` is `before` with `bytes(id, side)` appended to what each
/// end has received, and nothing else changed.
pub open spec fn received_more(
    before: Seq<(Id, OnDirection<EndView>)>,
    after: Seq<(Id, OnDirection<EndView>)>,
    items: Seq<Item>,
) -> bool {
    &&& after.len() == before.len()
    &&& forall|i: int, side: Direction|
        0 <= i < before.len() ==> (#[trigger] after[i]).0 == before[i].0 && match before[i].1.at(
            side,
        ) {
            Some(end) => (#[trigger] after[i].1.at(side)) == Some(
                EndView {
                    received: end.received + channel_bytes(items, before[i].0.value(), side),
                    ..end
                },
            ),
            None => after[i].1.at(side) is None,
        }
}

/// What one event delivers to each channel end is what the event tells of
/// that end's payload: the bytes of a frame go to the channel the header
/// names, on the side opposite to the sender's, and to no other end.
proof fn lemma_deliver(entries: Seq<(Id, OnDirection<EndView>)>, e: DemuxEvent)
    requires
        distinct(entries),
        deliver(entries, e).1 is None,
    ensures
        received_more(entries, deliver(entries, e).0, items_of(e)),
        distinct(deliver(entries, e).0),
{
    let after = deliver(entries, e).0;
    let items = items_of(e);
    match e {
        DemuxEvent::Continue => {
            assert forall|i: int, side: Direction| 0 <= i < entries.len() implies channel_bytes(
                items,
                entries[i].0.value(),
                side,
            ) =~= Seq::<u8>::empty() by {}
        },
        DemuxEvent::HeaderReceived(f) => {
            assert(items.drop_last() =~= Seq::<Item>::empty());
            assert forall|i: int, side: Direction| 0 <= i < entries.len() implies channel_bytes(
                items,
                entries[i].0.value(),
                side,
            ) =~= Seq::<u8>::empty() by {
                assert(channel_bytes(items.drop_last(), entries[i].0.value(), side)
                    =~= Seq::<u8>::empty());
            }
        },
        DemuxEvent::DataAppend(f, _, data) => {
            let p = place_of(entries, f.id);
            let to = f.direction().flip();
            assert(is_place(entries, f.id, p));
            assert forall|i: int, side: Direction| 0 <= i < entries.len() implies (
            #[trigger] after[i]).0 == entries[i].0 && match entries[i].1.at(side) {
                Some(end) => (#[trigger] after[i].1.at(side)) == Some(
                    EndView {
                        received: end.received + channel_bytes(items, entries[i].0.value(), side),
                        ..end
                    },
                ),
                None => after[i].1.at(side) is None,
            } by {
                lemma_channel_bytes_of_data(f, data, entries[i].0.value(), side);
                if i != p {
                    if i < p {
                        assert(entries[i].0.value() != entries[p].0.value());
                    } else {
                        assert(entries[p].0.value() != entries[i].0.value());
                    }
                }
                if let Some(end) = entries[i].1.at(side) {
                    assert(end.received + Seq::<u8>::empty() =~= end.received);
                }
            }
            assert forall|i: int, j: int| 0 <= i < j < after.len() implies (
            #[trigger] after[i]).0.value() != (#[trigger] after[j]).0.value() by {
                assert(entries[i].0.value() != entries[j].0.value());
            }
        },
    }
    if !(e is DataAppend) {
        assert(after == entries);
        assert forall|i: int, side: Direction| 0 <= i < entries.len() implies (
        #[trigger] after[i]).0 == entries[i].0 && match entries[i].1.at(side) {
            Some(end) => (#[trigger] after[i].1.at(side)) == Some(
                EndView {
                    received: end.received + channel_bytes(items, entries[i].0.value(), side),
                    ..end
                },
            ),
            None => after[i].1.at(side) is None,
        } by {
            if let Some(end) = entries[i].1.at(side) {
                assert(channel_bytes(items, entries[i].0.value(), side) =~= Seq::<u8>::empty());
                assert(end.received + Seq::<u8>::empty() =~= end.received);
            }
        }
    }
}

/// Receiving in two steps is receiving the items of both.
proof fn lemma_received_more_twice(
    a: Seq<(Id, OnDirection<EndView>)>,
    b: Seq<(Id, OnDirection<EndView>)>,
    c: Seq<(Id, OnDirection<EndView>)>,
    first: Seq<Item>,
    then: Seq<Item>,
)
    requires
        received_more(a, b, first),
        received_more(b, c, then),
    ensures
        received_more(a, c, first + then),
{
    assert forall|i: int, side: Direction| 0 <= i < a.len() implies (#[trigger] c[i]).0 == a[i].0
        && match a[i].1.at(side) {
        Some(end) => (#[trigger] c[i].1.at(side)) == Some(
            EndView {
                received: end.received + channel_bytes(first + then, a[i].0.value(), side),
                ..end
            },
        ),
        None => c[i].1.at(side) is None,
    } by {
        assert(b[i].0 == a[i].0);
        assert(c[i].0 == b[i].0);
        lemma_channel_bytes_concat(first, then, a[i].0.value(), side);
        if let Some(end) = a[i].1.at(side) {
            let x = channel_bytes(first, a[i].0.value(), side);
            let y = channel_bytes(then, a[i].0.value(), side);
            assert(b[i].1.at(side) == Some(EndView { received: end.received + x, ..end }));
            assert((end.received + x) + y =~= end.received + (x + y));
        } else {
            assert(b[i].1.at(side) is None);
        }
    }
}

/// Where the reader does not give the connection up, each channel end
/// receives of a chunk exactly the payload bytes that the stream tells for
/// it: those of the frames whose header names its channel and whose sender
/// is on the other side, in the order of the stream, whatever frames of
/// other channels lie between them.
pub proof fn lemma_feed_delivers(
    s: DemuxView,
    entries: Seq<(Id, OnDirection<EndView>)>,
    data: Seq<u8>,
)
    requires
        view_wf(s),
        distinct(entries),
        feed(s, entries, data).2 is None,
    ensures
        feed(s, entries, data).0 == trace(s, data).0,
        received_more(entries, feed(s, entries, data).1, trace(s, data).1),
    decreases data.len(),
{
    if data.len() == 0 {
        assert forall|i: int, side: Direction| 0 <= i < entries.len() implies match entries[i].1.at(
            side,
        ) {
            Some(end) => (#[trigger] entries[i].1.at(side)) == Some(
                EndView {
                    received: end.received + channel_bytes(
                        Seq::<Item>::empty(),
                        entries[i].0.value(),
                        side,
                    ),
                    ..end
                },
            ),
            None => entries[i].1.at(side) is None,
        } by {
            if let Some(end) = entries[i].1.at(side) {
                assert(end.received + Seq::<u8>::empty() =~= end.received);
            }
        }
    } else {
        let (s1, n, e) = step(s, data);
        lemma_step_is_trace(s, data);
        let (entries1, failure) = deliver(entries, e);
        lemma_deliver(entries, e);
        let rest = data.skip(n as int);
        lemma_feed_delivers(s1, entries1, rest);
        lemma_trace_concat(s, data.take(n as int), rest);
        assert(data.take(n as int) + rest =~= data);
        lemma_received_more_twice(
            entries,
            entries1,
            feed(s1, entries1, rest).1,
            items_of(e),
            trace(s1, rest).1,
        );
    }
}

/// The ends of a channel once the connection has ended: each is marked so,
/// and holds what it held.
pub open spec fn ended_ends(ends: OnDirection<EndView>) -> OnDirection<EndView> {
    match ends {
        OnDirection::Initiator(a) => OnDirection::Initiator(EndView { terminated: true, ..a }),
        OnDirection::Responder(b) => OnDirection::Responder(EndView { terminated: true, ..b }),
        OnDirection::InitiatorAndResponder(a, b) => OnDirection::InitiatorAndResponder(
            EndView { terminated: true, ..a },
            EndView { terminated: true, ..b },
        ),
    }
}

/// The directory once the connection has ended: the same channels, every
/// end marked as ended.
pub open spec fn ended(entries: Seq<(Id, OnDirection<EndView>)>) -> Seq<(Id, OnDirection<EndView>)> {
    Seq::new(entries.len(), |i: int| (entries[i].0, ended_ends(entries[i].1)))
}

/// Marks both ends, or the one end, of a channel as ended.
fn terminate_ends(ends: &mut OnDirection<AsyncRawChannel>)
    ensures
        ends_view(*final(ends)) == ended_ends(ends_view(*old(ends))),
{
    match ends {
        OnDirection::Initiator(c) => c.terminate(),
        OnDirection::Responder(c) => c.terminate(),
        OnDirection::InitiatorAndResponder(c1, c2) => {
            c1.terminate();
            c2.terminate();
        },
    }
}

/// Notes on every end of every channel that the connection has ended.
/// Nothing else changes: what the ends have received can still be read.
pub fn terminate_all(channels: &mut ChannelsMap<OnDirection<AsyncRawChannel>>)
    ensures
        directory_view(final(channels)@) == ended(directory_view(old(channels)@)),
{
    let n = channels.len();
    let mut i: usize = 0;
    while i < n
        invariant
            i <= n,
            n == channels@.len(),
            channels@.len() == old(channels)@.len(),
            forall|j: int|
                0 <= j < i ==> (#[trigger] channels@[j]).0 == old(channels)@[j].0 && ends_view(
                    channels@[j].1,
                ) == ended_ends(ends_view(old(channels)@[j].1)),
            forall|j: int| i <= j < n ==> #[trigger] channels@[j] == old(channels)@[j],
        decreases n - i,
    {
        let ends = channels.channel_at_mut(i);
        terminate_ends(ends);
        i += 1;
    }
    assert(directory_view(channels@) =~= ended(directory_view(old(channels)@)));
}

} // verus!
