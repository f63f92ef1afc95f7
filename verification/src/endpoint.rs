//! The two ends of a channel as a conversation sees them: the bytes waiting
//! to be sent, the bytes received, and the state of the protocol, which every
//! message that is sent or received has to respect.

use crate::buf::Buf;
use crate::cbor_helper::{boundary, CborBoundary};
use crate::channel::{Channel, ReadFailure, ReadMessageError};
use crate::channels_map::{
    ascending, has_entry, lookup, ChannelsMap, ChannelsMapBuilder, DuplicateChannel,
};
use crate::frame::{Direction, Id, OnDirection};
use crate::protocol::Protocol;
use crate::cbor::{Cbor, CborCodec};
use crate::cbor_bytes::{bytes_of, decode, encode, no_value, written_as};
use vstd::prelude::*;

verus! {

/// A message on its way out: its bytes, and how many of them the multiplexer
/// has taken.
pub struct Sending {
    position: usize,
    data: Vec<u8>,
}

impl View for Sending {
    type V = Seq<u8>;

    /// The bytes that the multiplexer has not taken yet.
    closed spec fn view(&self) -> Seq<u8> {
        self.data@.skip(self.position as int)
    }
}

impl Sending {
    #[verifier::type_invariant]
    spec fn position_within(self) -> bool {
        self.position <= self.data@.len()
    }

    /// A message of which nothing has been taken.
    pub fn new(data: Vec<u8>) -> (s: Sending)
        ensures
            s@ == data@,
    {
        let s = Sending { position: 0, data };
        assert(s@ =~= data@);
        s
    }

    /// The bytes that the multiplexer has not taken yet.
    pub fn left(&self) -> (bytes: &[u8])
        ensures
            bytes@ == self@,
    {
        proof {
            use_type_invariant(self);
        }
        vstd::slice::slice_subrange(self.data.as_slice(), self.position, self.data.len())
    }

    /// Marks the next `n` bytes as taken.
    pub fn advance(&mut self, n: usize)
        requires
            n <= old(self)@.len(),
        ensures
            final(self)@ == old(self)@.skip(n as int),
    {
        proof {
            use_type_invariant(&*self);
            vstd::std_specs::vec::axiom_spec_len(&self.data);
        }
        self.position += n;
        assert(self@ =~= old(self)@.skip(n as int));
    }
}

/// One end of a channel, as the connection holds it.
pub struct AsyncRawChannel {
    direction: Direction,
    raw_channel: Channel,
    to_send: Option<Sending>,
    terminated: bool,
}

/// What an end of a channel holds, as a value of the model.
pub struct EndView {
    /// The side of the connection that this end belongs to.
    pub direction: Direction,
    /// The bytes received and not yet read as messages.
    pub received: Seq<u8>,
    /// The number of bytes the receive buffer can hold.
    pub capacity: nat,
    /// What is left of the message on its way out, if there is one.
    pub sending: Option<Seq<u8>>,
    /// Whether the connection has ended.
    pub terminated: bool,
}

impl View for AsyncRawChannel {
    type V = EndView;

    closed spec fn view(&self) -> EndView {
        EndView {
            direction: self.direction,
            received: self.raw_channel@,
            capacity: self.raw_channel.capacity(),
            sending: match self.to_send {
                Some(s) => Some(s@),
                None => None,
            },
            terminated: self.terminated,
        }
    }
}

/// How an attempt to read a message ended.
pub enum ReadStep<T> {
    /// A message was read.
    Message(T),
    /// What was received is no message.
    Failed(ReadMessageError),
    /// No message is complete and none will be: the connection has ended.
    Terminated,
    /// No message is complete yet.
    Wait,
}

impl AsyncRawChannel {
    /// An end on side `direction` that has received nothing, sends nothing
    /// and can receive messages of up to `message_max_size` bytes.
    pub fn new(direction: Direction, message_max_size: usize) -> (end: AsyncRawChannel)
        ensures
            end@ == (EndView {
                direction,
                received: Seq::empty(),
                capacity: message_max_size as nat,
                sending: None,
                terminated: false,
            }),
    {
        AsyncRawChannel {
            direction,
            raw_channel: Channel::new(message_max_size),
            to_send: None,
            terminated: false,
        }
    }

    /// The side of the connection that this end belongs to.
    pub fn direction(&self) -> (d: Direction)
        ensures
            d == self@.direction,
    {
        self.direction
    }

    /// Notes that the connection has ended.
    pub fn terminate(&mut self)
        ensures
            final(self)@ == (EndView { terminated: true, ..old(self)@ }),
    {
        self.terminated = true;
    }

    /// Whether the connection has ended.
    pub fn is_terminated(&self) -> (b: bool)
        ensures
            b == self@.terminated,
    {
        self.terminated
    }

    /// The bytes received and not yet read as messages, oldest first.
    pub fn received(&self) -> (data: &[u8])
        ensures
            data@ == self@.received,
    {
        self.raw_channel.available()
    }

    /// Whether a message is on its way out.
    pub fn is_sending(&self) -> (b: bool)
        ensures
            b == self@.sending.is_some(),
    {
        self.to_send.is_some()
    }

    /// What is left of the message on its way out, if there is one.
    pub fn sending(&self) -> (r: Option<&[u8]>)
        ensures
            match self@.sending {
                Some(left) => r matches Some(bytes) && bytes@ == left,
                None => r is None,
            },
    {
        match &self.to_send {
            Some(s) => Some(s.left()),
            None => None,
        }
    }

    /// Takes the message on its way out from the end, if there is one.
    pub(crate) fn take_sending(&mut self) -> (r: Option<Sending>)
        ensures
            final(self)@ == (EndView { sending: None, ..old(self)@ }),
            match old(self)@.sending {
                Some(left) => r matches Some(s) && s@ == left,
                None => r is None,
            },
    {
        self.to_send.take()
    }

    /// Puts a message on its way out back into the end, which holds none.
    pub(crate) fn put_sending(&mut self, sending: Sending)
        requires
            old(self)@.sending is None,
        ensures
            final(self)@ == (EndView { sending: Some(sending@), ..old(self)@ }),
    {
        self.to_send = Some(sending);
    }

    /// Hands the bytes of one message to the end, to be sent.
    ///
    /// An end holds one message at a time. Where none is on its way out,
    /// `data` becomes that message. Where one is, nothing changes and `data`
    /// comes back: the caller tries again once the multiplexer has taken the
    /// other.
    pub fn send_one(&mut self, data: Vec<u8>) -> (r: Result<(), Vec<u8>>)
        ensures
            match old(self)@.sending {
                None => r is Ok && final(self)@ == (EndView {
                    sending: Some(data@),
                    ..old(self)@
                }),
                Some(_) => r == Err::<(), Vec<u8>>(data) && final(self)@ == old(self)@,
            },
    {
        if self.to_send.is_none() {
            self.to_send = Some(Sending::new(data));
            Ok(())
        } else {
            Err(data)
        }
    }

    /// Appends payload bytes to what was received, all of them or none.
    ///
    /// `Ok` exactly when `data` fits in the room that is left.
    pub fn receive(&mut self, data: &[u8]) -> (r: Result<(), ()>)
        ensures
            r is Ok <==> old(self)@.received.len() + data@.len() <= old(self)@.capacity,
            final(self)@ == (EndView {
                received: Buf::after_append(old(self)@.received, old(self)@.capacity, data@),
                ..old(self)@
            }),
    {
        let ghost before = self.raw_channel;
        let buf = self.raw_channel.buf_received();
        let r = buf.append_atomic(data);
        proof {
            before.lemma_buffer();
            self.raw_channel.lemma_buffer();
        }
        r
    }

    /// Hands the bytes of `message` to the end, to be sent. See `send_one`.
    pub fn send_message<M: CborCodec>(&mut self, message: &M) -> (r: Result<(), Vec<u8>>)
        ensures
            exists|tree: Cbor|
                #![trigger message.encodes(tree)]
                message.encodes(tree) && match old(self)@.sending {
                    None => r is Ok && final(self)@ == (EndView {
                        sending: Some(bytes_of(tree)),
                        ..old(self)@
                    }),
                    Some(_) => r matches Err(back) && back@ == bytes_of(tree) && final(self)@ == old(self)@,
                },
    {
        self.send_one(encode(message))
    }

    /// Tries to read one message from what was received: the value that the
    /// first CBOR item is in bytes, once the item is complete.
    ///
    /// The bytes of the item are consumed where they are a value. Where they
    /// are none, nothing is consumed and the attempt fails. Where no item is
    /// complete, the caller has to wait, unless the connection has ended or
    /// the buffer is full.
    pub fn read_message<M: CborCodec>(&mut self) -> (r: ReadStep<M>)
        ensures
            match boundary(old(self)@.received) {
                CborBoundary::CborError => r == ReadStep::<M>::Failed(
                    ReadMessageError(ReadFailure::InvalidCbor),
                ) && final(self)@ == old(self)@,
                CborBoundary::NeedMore => final(self)@ == old(self)@ && r == if old(self)@.received.len() == old(self)@.capacity {
                    ReadStep::<M>::Failed(
                        ReadMessageError(
                            ReadFailure::BlockIsTooBig {
                                buffer_size: old(self)@.capacity as usize,
                            },
                        ),
                    )
                } else if old(self)@.terminated {
                    ReadStep::<M>::Terminated
                } else {
                    ReadStep::<M>::Wait
                },
                CborBoundary::Slice(n) => match r {
                    ReadStep::Message(message) => written_as(
                        old(self)@.received.take(n as int),
                        message,
                    ) && final(self)@ == (EndView {
                        received: old(self)@.received.skip(n as int),
                        ..old(self)@
                    }),
                    ReadStep::Failed(e) => e.0 is InvalidValue && no_value::<M>(
                        old(self)@.received.take(n as int),
                    ) && final(self)@ == old(self)@,
                    _ => false,
                },
            },
    {
        let decode_item = |item: &[u8]| -> (d: Result<M, String>)
            ensures
                d matches Ok(value) ==> written_as(item@, value),
                d is Err ==> no_value::<M>(item@),
            {
                match decode::<M>(item) {
                    Ok(value) => Ok(value),
                    Err(_) => Err("the item is no message of the protocol".to_owned()),
                }
            };
        self.read_one(decode_item)
    }

    /// Tries to read one message from what was received.
    ///
    /// `decode` is handed the bytes of the first CBOR item, exactly, once it
    /// is complete, and those bytes are consumed where `decode` succeeds.
    /// Where no item is complete, the caller has to wait, unless the
    /// connection has ended or the buffer is full.
    pub fn read_one<T, F>(&mut self, decode: F) -> (r: ReadStep<T>) where
        F: FnOnce(&[u8]) -> Result<T, String>,

        requires
            forall|item: &[u8]| decode.requires((item,)),
        ensures
            match boundary(old(self)@.received) {
                CborBoundary::CborError => r == ReadStep::<T>::Failed(
                    ReadMessageError(ReadFailure::InvalidCbor),
                ) && final(self)@ == old(self)@,
                CborBoundary::NeedMore => final(self)@ == old(self)@ && r == if old(self)@.received.len() == old(self)@.capacity {
                    ReadStep::<T>::Failed(
                        ReadMessageError(
                            ReadFailure::BlockIsTooBig {
                                buffer_size: old(self)@.capacity as usize,
                            },
                        ),
                    )
                } else if old(self)@.terminated {
                    ReadStep::<T>::Terminated
                } else {
                    ReadStep::<T>::Wait
                },
                CborBoundary::Slice(n) => exists|item: &[u8], decoded: Result<T, String>|
                    {
                        &&& item@ == old(self)@.received.take(n as int)
                        &&& decode.ensures((item,), decoded)
                        &&& match decoded {
                            Ok(message) => r == ReadStep::<T>::Message(message) && final(self)@
                                == (EndView {
                                received: old(self)@.received.skip(n as int),
                                ..old(self)@
                            }),
                            Err(why) => r == ReadStep::<T>::Failed(
                                ReadMessageError(ReadFailure::InvalidValue(why)),
                            ) && final(self)@ == old(self)@,
                        }
                    },
            },
    {
        match self.raw_channel.pop_message(decode) {
            Some(Ok(message)) => ReadStep::Message(message),
            Some(Err(e)) => ReadStep::Failed(e),
            None => {
                if self.terminated {
                    ReadStep::Terminated
                } else {
                    ReadStep::Wait
                }
            },
        }
    }
}

/// The error of reading a message of protocol `P`.
pub enum MessageError<P: Protocol> {
    /// What was received is no message: it is no CBOR, it cannot be decoded,
    /// or it is larger than the protocol allows.
    InvalidContent(ReadMessageError),
    /// The message is not allowed in the state the protocol is in.
    InvalidState { current: P, msg: P::Message },
    /// The connection ended before a message arrived.
    StreamTerminated,
    /// A message that the protocol allows was not accepted by the caller's
    /// selection, which is meant to accept whatever the protocol allows.
    InternalError,
}

impl<P: Protocol> MessageError<P> {
    /// The same error for protocol `O`, where `f` says what the state and the
    /// message of an `InvalidState` become.
    pub fn map_state<F, O: Protocol>(self, f: F) -> (r: MessageError<O>) where
        F: FnOnce(P, P::Message) -> (O, O::Message),

        requires
            self matches MessageError::InvalidState { current, msg } ==> f.requires((current, msg)),
        ensures
            match self {
                MessageError::InvalidContent(e) => r == MessageError::<O>::InvalidContent(e),
                MessageError::InvalidState { current, msg } => r matches MessageError::InvalidState {
                    current: to,
                    msg: with,
                } && f.ensures((current, msg), (to, with)),
                MessageError::StreamTerminated => r == MessageError::<O>::StreamTerminated,
                MessageError::InternalError => r == MessageError::<O>::InternalError,
            },
    {
        match self {
            MessageError::InvalidContent(read_message_error) => {
                MessageError::InvalidContent(read_message_error)
            },
            MessageError::InvalidState { current, msg } => {
                let (o, omsg) = f(current, msg);
                MessageError::InvalidState { current: o, msg: omsg }
            },
            MessageError::StreamTerminated => MessageError::StreamTerminated,
            MessageError::InternalError => MessageError::InternalError,
        }
    }
}

impl<P: Protocol> From<ReadMessageError> for MessageError<P> {
    fn from(r: ReadMessageError) -> (e: MessageError<P>) {
        MessageError::InvalidContent(r)
    }
}

impl<P: Protocol> vstd::std_specs::convert::FromSpecImpl<ReadMessageError> for MessageError<P> {
    open spec fn obeys_from_spec() -> bool {
        true
    }

    open spec fn from_spec(r: ReadMessageError) -> MessageError<P> {
        MessageError::InvalidContent(r)
    }
}

/// What reading `m` gives where the caller's selection does not fit the
/// state the protocol is in: `InternalError` for a message that the protocol
/// allows there, `InvalidState` for one that it does not.
pub open spec fn out_of_turn<P: Protocol, T>(state: P, m: P::Message, r: Result<
    T,
    MessageError<P>,
>) -> bool {
    if exists|end: P| state.allows(&m, end) {
        r == Err::<T, MessageError<P>>(MessageError::InternalError)
    } else {
        r == Err::<T, MessageError<P>>(MessageError::InvalidState { current: state, msg: m })
    }
}

/// One end of a channel that speaks protocol `P`: the state of the protocol
/// on this end.
///
/// Every message that is sent or received passes through here, so that the
/// state follows the conversation and a message that the protocol does not
/// allow is noticed.
pub struct AsyncChannel<P: Protocol> {
    direction: Direction,
    protocol: P,
}

impl<P: Protocol> AsyncChannel<P> {
    /// The state the protocol is in.
    pub closed spec fn state(self) -> P {
        self.protocol
    }

    /// The side of the connection that this end belongs to.
    pub closed spec fn side(self) -> Direction {
        self.direction
    }

    /// An end on side `direction` with the protocol in state `protocol`.
    pub fn new(direction: Direction, protocol: P) -> (c: Self)
        ensures
            c.state() == protocol,
            c.side() == direction,
    {
        AsyncChannel { direction, protocol }
    }

    /// Puts the protocol in state `protocol`, whatever state it was in.
    ///
    /// This is for tools that step outside the protocol on purpose, to send
    /// what it does not allow.
    pub fn replace_state(&mut self, protocol: P)
        ensures
            final(self).state() == protocol,
            final(self).side() == old(self).side(),
    {
        self.protocol = protocol
    }

    /// The channel of the protocol.
    pub fn channel_id(&self) -> (id: Id)
        ensures
            id.value() == P::number(),
    {
        P::protocol_number()
    }

    /// The state the protocol is in.
    pub fn get_state(&self) -> (p: P)
        ensures
            p == self.state(),
    {
        self.protocol
    }

    /// The side of the connection that this end belongs to.
    pub fn direction(&self) -> (d: Direction)
        ensures
            d == self.side(),
    {
        self.direction
    }

    /// Takes note of a message that was received.
    ///
    /// A message that the protocol allows in its state moves the protocol on
    /// and is handed back. Any other gives `InvalidState`, with the state and
    /// the message, and leaves the state as it is.
    pub fn read_one(&mut self, m: P::Message) -> (r: Result<P::Message, MessageError<P>>)
        ensures
            final(self).side() == old(self).side(),
            forall|end: P|
                old(self).state().allows(&m, end) ==> r == Ok::<P::Message, MessageError<P>>(m)
                    && final(self).state() == end,
            (forall|end: P| !old(self).state().allows(&m, end)) ==> r == Err::<
                P::Message,
                MessageError<P>,
            >(MessageError::InvalidState { current: old(self).state(), msg: m }) && final(self).state() == old(self).state(),
    {
        match self.protocol.transition(&m) {
            None => Err(MessageError::InvalidState { current: self.protocol, msg: m }),
            Some(new_state) => {
                assert(self.protocol.allows(&m, new_state));
                self.protocol = new_state;
                Ok(m)
            },
        }
    }

    /// Takes note of a message that was received, and selects from it.
    ///
    /// A message that the protocol does not allow in its state gives
    /// `InvalidState` and is not shown to `msg_match`. One that is allowed is
    /// handed to `msg_match`: what that selects is returned and the protocol
    /// moves on; where it selects nothing the result is `InternalError` and
    /// the state stays as it is.
    pub fn read_one_match<F, T>(&mut self, m: P::Message, msg_match: F) -> (r: Result<
        T,
        MessageError<P>,
    >) where F: FnOnce(P::Message) -> Option<T>
        requires
            msg_match.requires((m,)),
        ensures
            final(self).side() == old(self).side(),
            forall|end: P|
                old(self).state().allows(&m, end) ==> exists|selected: Option<T>|
                    {
                        &&& #[trigger] msg_match.ensures((m,), selected)
                        &&& match selected {
                            Some(t) => r == Ok::<T, MessageError<P>>(t) && final(self).state()
                                == end,
                            None => r == Err::<T, MessageError<P>>(MessageError::InternalError)
                                && final(self).state() == old(self).state(),
                        }
                    },
            (forall|end: P| !old(self).state().allows(&m, end)) ==> r == Err::<T, MessageError<P>>(
                MessageError::InvalidState { current: old(self).state(), msg: m },
            ) && final(self).state() == old(self).state(),
    {
        match self.protocol.transition(&m) {
            None => Err(MessageError::InvalidState { current: self.protocol, msg: m }),
            Some(new_state) => {
                assert(self.protocol.allows(&m, new_state));
                match msg_match(m) {
                    None => Err(MessageError::InternalError),
                    Some(t) => {
                        self.protocol = new_state;
                        Ok(t)
                    },
                }
            },
        }
    }

    /// Takes note of a message that is about to be sent, and says whether it
    /// may be.
    ///
    /// A message that the protocol allows in its state moves the protocol on
    /// and is to be sent. Any other is to be dropped, and the state stays as
    /// it is: the peer is not sent what the protocol does not allow.
    pub fn write_one(&mut self, message: &P::Message) -> (allowed: bool)
        ensures
            final(self).side() == old(self).side(),
            forall|end: P|
                old(self).state().allows(message, end) ==> allowed && final(self).state() == end,
            (forall|end: P| !old(self).state().allows(message, end)) ==> !allowed && final(self).state() == old(self).state(),
    {
        match self.protocol.transition(message) {
            None => false,
            Some(new_state) => {
                assert(old(self).state().allows(message, new_state));
                self.protocol = new_state;
                true
            },
        }
    }
}

/// The ends that `wanted` asks for, fresh, for messages of up to `size` bytes.
pub open spec fn fresh_ends(wanted: OnDirection<()>, size: usize, ends: OnDirection<
    AsyncRawChannel,
>) -> bool {
    forall|d: Direction|
        match wanted.at(d) {
            Some(_) => #[trigger] ends.at(d) matches Some(end) && end@ == (EndView {
                direction: d,
                received: Seq::empty(),
                capacity: size as nat,
                sending: None,
                terminated: false,
            }),
            None => ends.at(d) is None,
        }
}

/// Whether `entries` has a channel with the integer `number`.
pub open spec fn has_channel(entries: Seq<(Id, OnDirection<AsyncRawChannel>)>, number: u16) -> bool {
    exists|id: Id| id.value() == number && has_entry(entries, id)
}

/// Whether `entries` holds, for `id`, the fresh ends that `wanted` asks for.
pub open spec fn registered(
    entries: Seq<(Id, OnDirection<AsyncRawChannel>)>,
    id: Id,
    wanted: OnDirection<()>,
    size: usize,
) -> bool {
    lookup(entries, id) matches Some(ends) && fresh_ends(wanted, size, ends)
}

/// The handles that `wanted` asks for, with the protocol in state `protocol`.
pub open spec fn fresh_handles<P: Protocol>(
    wanted: OnDirection<()>,
    protocol: P,
    handles: OnDirection<AsyncChannel<P>>,
) -> bool {
    forall|d: Direction|
        match wanted.at(d) {
            Some(_) => #[trigger] handles.at(d) matches Some(handle) && handle.state() == protocol
                && handle.side() == d,
            None => handles.at(d) is None,
        }
}

/// A channel that is added leaves the channels with other integers as they were.
pub proof fn lemma_other_channels_kept(
    before: Seq<(Id, OnDirection<AsyncRawChannel>)>,
    after: Seq<(Id, OnDirection<AsyncRawChannel>)>,
    added: u16,
    other: u16,
)
    requires
        added != other,
        forall|id: Id| id.value() != added ==> #[trigger] lookup(after, id) == lookup(before, id),
    ensures
        has_channel(after, other) == has_channel(before, other),
{
    if has_channel(after, other) {
        let id = choose|id: Id| id.value() == other && has_entry(after, id);
        crate::channels_map::lemma_lookup_some(after, id);
        crate::channels_map::lemma_lookup_some(before, id);
        assert(lookup(after, id) == lookup(before, id));
    }
    if has_channel(before, other) {
        let id = choose|id: Id| id.value() == other && has_entry(before, id);
        crate::channels_map::lemma_lookup_some(after, id);
        crate::channels_map::lemma_lookup_some(before, id);
        assert(lookup(after, id) == lookup(before, id));
    }
}

/// The handle of the end on side `direction` among `handles`, which hold one.
pub(crate) fn end_of<P: Protocol>(handles: OnDirection<AsyncChannel<P>>, direction: Direction) -> (handle:
    AsyncChannel<P>)
    requires
        handles.at(direction) is Some,
    ensures
        Some(handle) == handles.at(direction),
{
    match handles {
        OnDirection::Initiator(t) => t,
        OnDirection::Responder(t) => t,
        OnDirection::InitiatorAndResponder(a, b) => match direction {
            Direction::Initiator => a,
            Direction::Responder => b,
        },
    }
}

/// The channels of a connection that is being set up.
pub struct HandleChannels {
    channels: ChannelsMapBuilder<OnDirection<AsyncRawChannel>>,
}

impl View for HandleChannels {
    type V = Seq<(Id, OnDirection<AsyncRawChannel>)>;

    /// The channels registered so far, in ascending order of their identifiers.
    closed spec fn view(&self) -> Seq<(Id, OnDirection<AsyncRawChannel>)> {
        self.channels@
    }
}

impl HandleChannels {
    /// No channels yet.
    pub fn new() -> (h: HandleChannels)
        ensures
            h@.len() == 0,
    {
        HandleChannels { channels: ChannelsMapBuilder::new() }
    }

    /// The number of channels registered.
    pub fn len(&self) -> (n: usize)
        ensures
            n == self@.len(),
    {
        self.channels.len()
    }

    /// Whether a channel is registered under `channel_id`.
    pub fn has(&self, channel_id: Id) -> (b: bool)
        ensures
            b == has_entry(self@, channel_id),
    {
        self.channels.has(channel_id)
    }

    /// Registers the channel of protocol `P`, starting in the state
    /// `protocol`, with the ends that `direction` asks for.
    ///
    /// Where the protocol's channel is free, fresh ends are registered under
    /// it and the result holds a handle for each of them. Where it is taken,
    /// nothing changes and the result is `DuplicateChannel`.
    pub fn add_with<P: Protocol>(&mut self, protocol: P, direction: OnDirection<()>) -> (r: Result<
        OnDirection<AsyncChannel<P>>,
        DuplicateChannel,
    >)
        ensures
            ascending(final(self)@),
            final(self)@.len() > 0,
            has_channel(final(self)@, P::number()),
            r is Err <==> has_channel(old(self)@, P::number()),
            r matches Err(e) ==> e.0.value() == P::number(),
            r matches Ok(handles) ==> fresh_handles(direction, protocol, handles),
            r is Ok ==> forall|id: Id|
                id.value() == P::number() ==> #[trigger] registered(
                    final(self)@,
                    id,
                    direction,
                    P::max_size(),
                ),
            r is Err ==> final(self)@ == old(self)@,
            forall|id: Id|
                id.value() != P::number() ==> #[trigger] lookup(final(self)@, id) == lookup(
                    old(self)@,
                    id,
                ),
    {
        let channel_id = P::protocol_number();
        let size = P::message_max_size();
        let (ends, handles) = match direction {
            OnDirection::Initiator(()) => (
                OnDirection::Initiator(AsyncRawChannel::new(Direction::Initiator, size)),
                OnDirection::Initiator(AsyncChannel::new(Direction::Initiator, protocol)),
            ),
            OnDirection::Responder(()) => (
                OnDirection::Responder(AsyncRawChannel::new(Direction::Responder, size)),
                OnDirection::Responder(AsyncChannel::new(Direction::Responder, protocol)),
            ),
            OnDirection::InitiatorAndResponder((), ()) => (
                OnDirection::InitiatorAndResponder(
                    AsyncRawChannel::new(Direction::Initiator, size),
                    AsyncRawChannel::new(Direction::Responder, size),
                ),
                OnDirection::InitiatorAndResponder(
                    AsyncChannel::new(Direction::Initiator, protocol),
                    AsyncChannel::new(Direction::Responder, protocol),
                ),
            ),
        };
        assert(fresh_ends(direction, size, ends));
        assert(fresh_handles(direction, protocol, handles));
        proof {
            assert forall|id: Id| id.value() == P::number() implies id == channel_id by {
                Id::lemma_value_injective(id, channel_id);
            }
            assert forall|id: Id| id.value() != P::number() implies id != channel_id by {
                Id::lemma_value_injective(id, channel_id);
            }
        }
        let added = self.channels.add(channel_id, ends);
        proof {
            crate::channels_map::lemma_lookup_some(self.channels@, channel_id);
            if has_channel(old(self)@, P::number()) {
                let id = choose|id: Id| id.value() == P::number() && has_entry(old(self)@, id);
                assert(id == channel_id);
            }
        }
        match added {
            Ok(()) => Ok(handles),
            Err(e) => Err(e),
        }
    }

    /// Registers the channel of protocol `P`, starting in the state that is
    /// the protocol's default, with the ends that `direction` asks for. See
    /// `add_with`.
    pub fn add<P>(&mut self, direction: OnDirection<()>) -> (r: Result<
        OnDirection<AsyncChannel<P>>,
        DuplicateChannel,
    >) where P: Protocol + Default
        ensures
            ascending(final(self)@),
            final(self)@.len() > 0,
            has_channel(final(self)@, P::number()),
            r is Err <==> has_channel(old(self)@, P::number()),
            r matches Err(e) ==> e.0.value() == P::number(),
            r matches Ok(handles) ==> exists|first: P|
                call_ensures(P::default, (), first) && #[trigger] fresh_handles(
                    direction,
                    first,
                    handles,
                ),
            r is Ok ==> forall|id: Id|
                id.value() == P::number() ==> #[trigger] registered(
                    final(self)@,
                    id,
                    direction,
                    P::max_size(),
                ),
            r is Err ==> final(self)@ == old(self)@,
            forall|id: Id|
                id.value() != P::number() ==> #[trigger] lookup(final(self)@, id) == lookup(
                    old(self)@,
                    id,
                ),
    {
        let first = P::default();
        let r = self.add_with(first, direction);
        proof {
            if r is Ok {
                assert(fresh_handles(direction, first, r->Ok_0));
            }
        }
        r
    }

    /// Registers the channel of protocol `P` with the initiator's end only,
    /// and gives the handle of that end. See `add_with`.
    pub fn add_initiator<P>(&mut self) -> (r: Result<AsyncChannel<P>, DuplicateChannel>) where
        P: Protocol + Default,

        ensures
            ascending(final(self)@),
            final(self)@.len() > 0,
            has_channel(final(self)@, P::number()),
            r is Err <==> has_channel(old(self)@, P::number()),
            r matches Err(e) ==> e.0.value() == P::number(),
            r matches Ok(handle) ==> handle.side() == Direction::Initiator && call_ensures(
                P::default,
                (),
                handle.state(),
            ),
            r is Ok ==> forall|id: Id|
                id.value() == P::number() ==> #[trigger] registered(
                    final(self)@,
                    id,
                    OnDirection::Initiator(()),
                    P::max_size(),
                ),
            r is Err ==> final(self)@ == old(self)@,
            forall|id: Id|
                id.value() != P::number() ==> #[trigger] lookup(final(self)@, id) == lookup(
                    old(self)@,
                    id,
                ),
    {
        let wanted: OnDirection<()> = OnDirection::Initiator(());
        let first = P::default();
        match self.add_with(first, wanted) {
            Ok(handles) => {
                assert(handles.at(Direction::Initiator) is Some);
                Ok(end_of(handles, Direction::Initiator))
            },
            Err(e) => Err(e),
        }
    }

    /// Registers the channel of protocol `P` with the responder's end only,
    /// and gives the handle of that end. See `add_with`.
    pub fn add_responder<P>(&mut self) -> (r: Result<AsyncChannel<P>, DuplicateChannel>) where
        P: Protocol + Default,

        ensures
            ascending(final(self)@),
            final(self)@.len() > 0,
            has_channel(final(self)@, P::number()),
            r is Err <==> has_channel(old(self)@, P::number()),
            r matches Err(e) ==> e.0.value() == P::number(),
            r matches Ok(handle) ==> handle.side() == Direction::Responder && call_ensures(
                P::default,
                (),
                handle.state(),
            ),
            r is Ok ==> forall|id: Id|
                id.value() == P::number() ==> #[trigger] registered(
                    final(self)@,
                    id,
                    OnDirection::Responder(()),
                    P::max_size(),
                ),
            r is Err ==> final(self)@ == old(self)@,
            forall|id: Id|
                id.value() != P::number() ==> #[trigger] lookup(final(self)@, id) == lookup(
                    old(self)@,
                    id,
                ),
    {
        let wanted: OnDirection<()> = OnDirection::Responder(());
        let first = P::default();
        match self.add_with(first, wanted) {
            Ok(handles) => {
                assert(handles.at(Direction::Responder) is Some);
                Ok(end_of(handles, Direction::Responder))
            },
            Err(e) => Err(e),
        }
    }

    /// The directory of the channels, complete. A connection has at least
    /// one channel.
    pub fn finalize(self) -> (m: ChannelsMap<OnDirection<AsyncRawChannel>>)
        requires
            self@.len() > 0,
        ensures
            m@ == self@,
            ascending(m@),
    {
        self.channels.finalize()
    }
}

} // verus!
