//! Block fetch: the client asks for the blocks between two points and the
//! server streams them.

use crate::cbor::{
    from_encoded_cbor, from_u64, is_encoded_cbor, is_u64, items_of, to_encoded_cbor, to_u64, Cbor,
    CborCodec, Undecodable,
};
pub use crate::chainsync_n2n::Point;
use crate::frame::{Direction, Id};
use crate::protocol::Protocol;
use crate::protocol_numbers;
use crate::transitions::{next_state, Context, Transition};
use vstd::prelude::*;

verus! {

/// A block as the CBOR item it was sent as. Its content is not looked at.
#[derive(Clone, Debug)]
pub struct CborBlockData(pub Vec<u8>);

impl CborBlockData {
    /// The bytes of the item.
    pub fn as_ref(&self) -> (bytes: &[u8])
        ensures
            bytes@ == self.0@,
    {
        self.0.as_slice()
    }
}
/// A block is written as an item within an item: its bytes, with tag 24.
impl CborCodec for CborBlockData {
    open spec fn encodes(self, tree: Cbor) -> bool {
        is_encoded_cbor(self.0@, tree)
    }

    fn to_cbor(&self) -> (tree: Cbor) {
        from_encoded_cbor(&self.0)
    }

    fn from_cbor(tree: &Cbor) -> (r: Result<CborBlockData, Undecodable>) {
        match to_encoded_cbor(tree) {
            Ok(value) => {
                let read = CborBlockData(value);
                assert(read.encodes(*tree));
                Ok(read)
            },
            Err(e) => {
                assert forall|value: CborBlockData| !value.encodes(*tree) by {}
                Err(e)
            },
        }
    }
}

/// The states of the block fetch protocol.
#[derive(Clone, Copy, Debug, PartialEq, Eq, Structural)]
pub enum State {
    /// The client may ask for a range or end the conversation.
    Idle,
    /// The conversation is over.
    Done,
    /// The server decides whether it has the range.
    Busy,
    /// The server sends the blocks of the range.
    Streaming,
}

impl Default for State {
    /// The state in which every conversation begins.
    fn default() -> (s: State)
        ensures
            s == State::Idle,
    {
        State::Idle
    }
}

/// The messages of the block fetch protocol.
#[derive(Clone, Debug)]
pub enum Message {
    /// Asks for the blocks from the first point to the second.
    RequestRange(Point, Point),
    /// Ends the conversation.
    ClientDone,
    /// The blocks of the range follow.
    StartBatch,
    /// The server does not have the range.
    NoBlocks,
    /// One block of the range.
    Block(CborBlockData),
    /// The range is complete.
    BatchDone,
}

impl Message {
    /// Whether the message is declared as one that the client sends.
    pub open spec fn client_sent(&self) -> bool {
        self is RequestRange || self is ClientDone
    }

    /// The side that is declared to send the message: the initiator for a
    /// client's message, the responder for any other.
    pub open spec fn declared_sender(&self) -> Direction {
        if self.client_sent() {
            Direction::Initiator
        } else {
            Direction::Responder
        }
    }

    /// The side that is declared to send the message.
    pub fn sender(&self) -> (side: Direction)
        ensures
            side == self.declared_sender(),
    {
        match self {
            Message::RequestRange(..) => Direction::Initiator,
            Message::ClientDone => Direction::Initiator,
            Message::StartBatch => Direction::Responder,
            Message::NoBlocks => Direction::Responder,
            Message::Block(..) => Direction::Responder,
            Message::BatchDone => Direction::Responder,
        }
    }

    /// The state that this message leads to from `current_state`, or `None`
    /// where the message is not allowed there.
    pub fn can_transition(&self, current_state: State) -> (next: Option<State>)
        ensures
            forall|end: State| next == Some(end) <==> current_state.allows(self, end),
    {
        match self {
            Message::RequestRange(..) => match current_state {
                State::Idle => Some(State::Busy),
                _ => None,
            },
            Message::ClientDone => match current_state {
                State::Idle => Some(State::Done),
                _ => None,
            },
            Message::StartBatch => match current_state {
                State::Busy => Some(State::Streaming),
                _ => None,
            },
            Message::NoBlocks => match current_state {
                State::Busy => Some(State::Idle),
                _ => None,
            },
            Message::Block(..) => match current_state {
                State::Streaming => Some(State::Streaming),
                _ => None,
            },
            Message::BatchDone => match current_state {
                State::Streaming => Some(State::Idle),
                _ => None,
            },
        }
    }
}

impl Protocol for State {
    type Message = Message;

    open spec fn allows(self, message: &Message, end: State) -> bool {
        ||| self is Idle && message is RequestRange && end is Busy
        ||| self is Idle && message is ClientDone && end is Done
        ||| self is Busy && message is NoBlocks && end is Idle
        ||| self is Busy && message is StartBatch && end is Streaming
        ||| self is Streaming && message is Block && end is Streaming
        ||| self is Streaming && message is BatchDone && end is Idle
    }

    open spec fn agency(self) -> Option<Direction> {
        match self {
            State::Idle => Some(Direction::Initiator),
            State::Done => None,
            State::Busy => Some(Direction::Responder),
            State::Streaming => Some(Direction::Responder),
        }
    }

    open spec fn number() -> u16 {
        protocol_numbers::BLOCKFETCH
    }

    open spec fn max_size() -> usize {
        2_560_000
    }

    fn protocol_number() -> (id: Id) {
        Id::new(protocol_numbers::BLOCKFETCH)
    }

    fn message_max_size() -> (size: usize) {
        2_560_000
    }

    fn transition(self, message: &Message) -> (next: Option<State>) {
        message.can_transition(self)
    }

    fn direction(self) -> (side: Option<Direction>) {
        match self {
            State::Idle => Some(Direction::Initiator),
            State::Done => None,
            State::Busy => Some(Direction::Responder),
            State::Streaming => Some(Direction::Responder),
        }
    }
}

/// What the server may answer to `RequestRange`.
#[derive(Clone, Debug)]
pub enum RequestRangeRet {
    NoBlocks,
    StartBatch,
}

impl RequestRangeRet {
    /// The message that this is.
    pub open spec fn message(self) -> Message {
        match self {
            RequestRangeRet::NoBlocks => Message::NoBlocks,
            RequestRangeRet::StartBatch => Message::StartBatch,
        }
    }
}

impl From<RequestRangeRet> for Message {
    fn from(r: RequestRangeRet) -> (m: Message) {
        match r {
            RequestRangeRet::NoBlocks => Message::NoBlocks,
            RequestRangeRet::StartBatch => Message::StartBatch,
        }
    }
}

impl vstd::std_specs::convert::FromSpecImpl<RequestRangeRet> for Message {
    open spec fn obeys_from_spec() -> bool {
        true
    }

    open spec fn from_spec(r: RequestRangeRet) -> Message {
        r.message()
    }
}

/// Picks out the messages that may answer `RequestRange`: those that are allowed
/// in state `Busy`.
pub fn client_request_range_ret(message: Message) -> (r: Option<RequestRangeRet>)
    ensures
        r is Some <==> exists|end: State| State::Busy.allows(&message, end),
        r matches Some(picked) ==> picked.message() == message,
{
    let ghost received = message;
    match message {
        Message::NoBlocks => {
            assert(State::Busy.allows(&received, State::Idle));
            Some(RequestRangeRet::NoBlocks)
        },
        Message::StartBatch => {
            assert(State::Busy.allows(&received, State::Streaming));
            Some(RequestRangeRet::StartBatch)
        },
        _ => None,
    }
}

/// What the client may send in state `Idle`.
#[derive(Clone, Debug)]
pub enum OnIdleMsg {
    RequestRange(Point, Point),
    ClientDone,
}

impl OnIdleMsg {
    /// The message that this is.
    pub open spec fn message(self) -> Message {
        match self {
            OnIdleMsg::RequestRange(param0, param1) => Message::RequestRange(param0, param1),
            OnIdleMsg::ClientDone => Message::ClientDone,
        }
    }
}

/// Picks out the messages that the client may send in state `Idle`.
pub fn server_idle_message_filter(message: Message) -> (r: Option<OnIdleMsg>)
    ensures
        r is Some <==> exists|end: State| State::Idle.allows(&message, end),
        r matches Some(picked) ==> picked.message() == message,
{
    let ghost received = message;
    match message {
        Message::RequestRange(param0, param1) => {
            assert(State::Idle.allows(&received, State::Busy));
            Some(OnIdleMsg::RequestRange(param0, param1))
        },
        Message::ClientDone => {
            assert(State::Idle.allows(&received, State::Done));
            Some(OnIdleMsg::ClientDone)
        },
        _ => None,
    }
}

/// A message is allowed in at most one way: the state it leads to is
/// determined by the state it is sent in.
pub proof fn lemma_one_end(state: State, message: Message, end1: State, end2: State)
    requires
        state.allows(&message, end1),
        state.allows(&message, end2),
    ensures
        end1 == end2,
{
}

/// Nobody may send in a state exactly when no message is allowed in it:
/// such a state is never left.
pub proof fn lemma_final_states(state: State)
    ensures
        state.agency() is None <==> forall|message: Message, end: State|
            !state.allows(&message, end),
{
    match state {
        State::Idle => {
            let witness = Message::RequestRange(arbitrary(), arbitrary());
            assert(state.allows(&witness, State::Busy));
        },
        State::Done => {},
        State::Busy => {
            let witness = Message::NoBlocks;
            assert(state.allows(&witness, State::Idle));
        },
        State::Streaming => {
            let witness = Message::Block(arbitrary());
            assert(state.allows(&witness, State::Streaming));
        },
    }
}

/// Whoever sends a message that is allowed has the right to speak: the
/// side that may send in a state is the side declared to send the
/// message.
pub proof fn lemma_sender_has_agency(state: State, message: Message, end: State)
    requires
        state.allows(&message, end),
    ensures
        state.agency() == Some(message.declared_sender()),
{
}

impl State {
    /// The place of the state in the list of the states.
    pub open spec fn place(self) -> usize {
        match self {
            State::Idle => 0,
            State::Done => 1,
            State::Busy => 2,
            State::Streaming => 3,
        }
    }

    /// The place of the state in the list of the states.
    pub fn index(self) -> (i: usize)
        ensures
            i == self.place(),
    {
        match self {
            State::Idle => 0,
            State::Done => 1,
            State::Busy => 2,
            State::Streaming => 3,
        }
    }
}

impl Message {
    /// The place of the message in the list of the messages.
    pub open spec fn place(&self) -> usize {
        match self {
            Message::RequestRange(..) => 0,
            Message::ClientDone => 1,
            Message::StartBatch => 2,
            Message::NoBlocks => 3,
            Message::Block(..) => 4,
            Message::BatchDone => 5,
        }
    }

    /// The place of the message in the list of the messages.
    pub fn index(&self) -> (i: usize)
        ensures
            i == self.place(),
    {
        match self {
            Message::RequestRange(..) => 0,
            Message::ClientDone => 1,
            Message::StartBatch => 2,
            Message::NoBlocks => 3,
            Message::Block(..) => 4,
            Message::BatchDone => 5,
        }
    }
}

/// The transitions of the protocol as they are declared, each state and
/// message by its place.
pub open spec fn declared() -> Seq<Transition> {
    seq![
        Transition { start: 0, message: 0, end: 2 },
        Transition { start: 0, message: 1, end: 1 },
        Transition { start: 2, message: 3, end: 0 },
        Transition { start: 2, message: 2, end: 3 },
        Transition { start: 3, message: 4, end: 3 },
        Transition { start: 3, message: 5, end: 0 },
    ]
}

/// The places of the messages that the client is declared to send.
pub open spec fn declared_clients() -> Seq<usize> {
    seq![0usize, 1usize]
}

/// The declaration of the protocol, as data.
pub fn declaration() -> (r: (Context, Vec<usize>))
    ensures
        r.0@ == declared(),
        r.1@ == declared_clients(),
{
    let mut transitions: Vec<Transition> = Vec::new();
    transitions.push(Transition { start: 0, message: 0, end: 2 });
    transitions.push(Transition { start: 0, message: 1, end: 1 });
    transitions.push(Transition { start: 2, message: 3, end: 0 });
    transitions.push(Transition { start: 2, message: 2, end: 3 });
    transitions.push(Transition { start: 3, message: 4, end: 3 });
    transitions.push(Transition { start: 3, message: 5, end: 0 });
    let mut clients: Vec<usize> = Vec::new();
    clients.push(0);
    clients.push(1);
    assert(transitions@ =~= declared());
    assert(clients@ =~= declared_clients());
    (Context::new(transitions), clients)
}

/// The relation is the declaration: a message is allowed in a state and
/// leads to another exactly when the transition function derived from the
/// declaration says so.
pub proof fn lemma_relation_is_declared(state: State, message: Message, end: State)
    ensures
        state.allows(&message, end) <==> next_state(declared(), state.place(), message.place())
            == Some(end.place()),
{
    reveal_with_fuel(next_state, 7);
    let d = declared();
    assert(d.skip(1) =~= d.skip(0).skip(1));
    assert(d.skip(2) =~= d.skip(1).skip(1));
    assert(d.skip(3) =~= d.skip(2).skip(1));
    assert(d.skip(4) =~= d.skip(3).skip(1));
    assert(d.skip(5) =~= d.skip(4).skip(1));
    assert(d.skip(6) =~= d.skip(5).skip(1));
    assert(d.skip(0) =~= d);
}

/// A message is written as an array: the number of its kind, then what it carries.
impl CborCodec for Message {
    open spec fn encodes(self, tree: Cbor) -> bool {
        tree matches Cbor::Array(items) && match self {
            Message::RequestRange(f0, f1) => items@.len() == 3 && is_u64(0, items@[0]) && f0.encodes(items@[1]) && f1.encodes(items@[2]),
            Message::ClientDone => items@.len() == 1 && is_u64(1, items@[0]),
            Message::StartBatch => items@.len() == 1 && is_u64(2, items@[0]),
            Message::NoBlocks => items@.len() == 1 && is_u64(3, items@[0]),
            Message::Block(f0) => items@.len() == 2 && is_u64(4, items@[0]) && f0.encodes(items@[1]),
            Message::BatchDone => items@.len() == 1 && is_u64(5, items@[0]),
        }
    }

    fn to_cbor(&self) -> (tree: Cbor) {
        let mut items: Vec<Cbor> = Vec::new();
        match self {
            Message::RequestRange(f0, f1) => {
                items.push(from_u64(0));
                items.push(f0.to_cbor());
                items.push(f1.to_cbor());
            },
            Message::ClientDone => {
                items.push(from_u64(1));
            },
            Message::StartBatch => {
                items.push(from_u64(2));
            },
            Message::NoBlocks => {
                items.push(from_u64(3));
            },
            Message::Block(f0) => {
                items.push(from_u64(4));
                items.push(f0.to_cbor());
            },
            Message::BatchDone => {
                items.push(from_u64(5));
            },
        }
        Cbor::Array(items)
    }

    fn from_cbor(tree: &Cbor) -> (r: Result<Message, Undecodable>) {
        let items = match items_of(tree) {
            Ok(items) => items,
            Err(e) => {
                assert forall|value: Message| !value.encodes(*tree) by {}
                return Err(e);
            },
        };
        if items.len() == 0 {
            assert forall|value: Message| !value.encodes(*tree) by {}
            return Err(Undecodable);
        }
        let tag = match to_u64(&items[0]) {
            Ok(tag) => tag,
            Err(e) => {
                assert forall|value: Message| !value.encodes(*tree) by {}
                return Err(e);
            },
        };
        if tag == 0 {
            if items.len() != 3 {
                assert forall|value: Message| !value.encodes(*tree) by {}
                return Err(Undecodable);
            }
            let f0 = match Point::from_cbor(&items[1]) {
                Ok(value) => value,
                Err(e) => {
                    assert forall|value: Message| !value.encodes(*tree) by {}
                    return Err(e);
                },
            };
            let f1 = match Point::from_cbor(&items[2]) {
                Ok(value) => value,
                Err(e) => {
                    assert forall|value: Message| !value.encodes(*tree) by {}
                    return Err(e);
                },
            };
            let read = Message::RequestRange(f0, f1);
            assert(read.encodes(*tree));
            Ok(read)
        } else if tag == 1 {
            if items.len() != 1 {
                assert forall|value: Message| !value.encodes(*tree) by {}
                return Err(Undecodable);
            }
            let read = Message::ClientDone;
            assert(read.encodes(*tree));
            Ok(read)
        } else if tag == 2 {
            if items.len() != 1 {
                assert forall|value: Message| !value.encodes(*tree) by {}
                return Err(Undecodable);
            }
            let read = Message::StartBatch;
            assert(read.encodes(*tree));
            Ok(read)
        } else if tag == 3 {
            if items.len() != 1 {
                assert forall|value: Message| !value.encodes(*tree) by {}
                return Err(Undecodable);
            }
            let read = Message::NoBlocks;
            assert(read.encodes(*tree));
            Ok(read)
        } else if tag == 4 {
            if items.len() != 2 {
                assert forall|value: Message| !value.encodes(*tree) by {}
                return Err(Undecodable);
            }
            let f0 = match CborBlockData::from_cbor(&items[1]) {
                Ok(value) => value,
                Err(e) => {
                    assert forall|value: Message| !value.encodes(*tree) by {}
                    return Err(e);
                },
            };
            let read = Message::Block(f0);
            assert(read.encodes(*tree));
            Ok(read)
        } else if tag == 5 {
            if items.len() != 1 {
                assert forall|value: Message| !value.encodes(*tree) by {}
                return Err(Undecodable);
            }
            let read = Message::BatchDone;
            assert(read.encodes(*tree));
            Ok(read)
        } else {
            assert forall|value: Message| !value.encodes(*tree) by {}
            Err(Undecodable)
        }
    }
}
} // verus!
