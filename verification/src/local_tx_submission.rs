//! Local transaction submission: a client hands transactions to its node.

use crate::cbor::{from_u64, is_u64, items_of, to_u64, Cbor, CborCodec, Undecodable};
use crate::frame::{Direction, Id};
use crate::protocol::Protocol;
use crate::protocol_numbers;
use crate::transitions::{next_state, Context, Transition};
use vstd::prelude::*;
use crate::tx_submission::Tx;

verus! {

/// The states of the local transaction submission protocol.
#[derive(Clone, Copy, Debug, PartialEq, Eq, Structural)]
pub enum State {
    /// The client may submit a transaction or end the conversation.
    Idle,
    /// The node decides on the transaction.
    Busy,
    /// The conversation is over.
    Done,
}

impl Default for State {
    /// The state in which every conversation begins.
    fn default() -> (s: State)
        ensures
            s == State::Idle,
    {
        State::Idle
    }
}

/// The messages of the local transaction submission protocol.
#[derive(Clone, Debug)]
pub enum Message {
    /// Submits a transaction.
    SubmitTx(Tx),
    /// The transaction was accepted.
    AcceptTx,
    /// The transaction was rejected, with a code.
    RejectTx(u64),
    /// Ends the conversation.
    Done,
}

impl Message {
    /// Whether the message is declared as one that the client sends.
    pub open spec fn client_sent(&self) -> bool {
        self is SubmitTx || self is Done
    }

    /// The side that is declared to send the message: the initiator for a
    /// client's message, the responder for any other.
    pub open spec fn declared_sender(&self) -> Direction {
        if self.client_sent() {
            Direction::Initiator
        } else {
            Direction::Responder
        }
    }

    /// The side that is declared to send the message.
    pub fn sender(&self) -> (side: Direction)
        ensures
            side == self.declared_sender(),
    {
        match self {
            Message::SubmitTx(..) => Direction::Initiator,
            Message::AcceptTx => Direction::Responder,
            Message::RejectTx(..) => Direction::Responder,
            Message::Done => Direction::Initiator,
        }
    }

    /// The state that this message leads to from `current_state`, or `None`
    /// where the message is not allowed there.
    pub fn can_transition(&self, current_state: State) -> (next: Option<State>)
        ensures
            forall|end: State| next == Some(end) <==> current_state.allows(self, end),
    {
        match self {
            Message::SubmitTx(..) => match current_state {
                State::Idle => Some(State::Busy),
                _ => None,
            },
            Message::AcceptTx => match current_state {
                State::Busy => Some(State::Idle),
                _ => None,
            },
            Message::RejectTx(..) => match current_state {
                State::Busy => Some(State::Idle),
                _ => None,
            },
            Message::Done => match current_state {
                State::Idle => Some(State::Done),
                _ => None,
            },
        }
    }
}

impl Protocol for State {
    type Message = Message;

    open spec fn allows(self, message: &Message, end: State) -> bool {
        ||| self is Idle && message is SubmitTx && end is Busy
        ||| self is Busy && message is AcceptTx && end is Idle
        ||| self is Busy && message is RejectTx && end is Idle
        ||| self is Idle && message is Done && end is Done
    }

    open spec fn agency(self) -> Option<Direction> {
        match self {
            State::Idle => Some(Direction::Initiator),
            State::Busy => Some(Direction::Responder),
            State::Done => None,
        }
    }

    open spec fn number() -> u16 {
        protocol_numbers::LOCAL_TX_SUBMISSION
    }

    open spec fn max_size() -> usize {
        8192
    }

    fn protocol_number() -> (id: Id) {
        Id::new(protocol_numbers::LOCAL_TX_SUBMISSION)
    }

    fn message_max_size() -> (size: usize) {
        8192
    }

    fn transition(self, message: &Message) -> (next: Option<State>) {
        message.can_transition(self)
    }

    fn direction(self) -> (side: Option<Direction>) {
        match self {
            State::Idle => Some(Direction::Initiator),
            State::Busy => Some(Direction::Responder),
            State::Done => None,
        }
    }
}

/// What the server may answer to `SubmitTx`.
#[derive(Clone, Debug)]
pub enum SubmitTxRet {
    AcceptTx,
    RejectTx(u64),
}

impl SubmitTxRet {
    /// The message that this is.
    pub open spec fn message(self) -> Message {
        match self {
            SubmitTxRet::AcceptTx => Message::AcceptTx,
            SubmitTxRet::RejectTx(param0) => Message::RejectTx(param0),
        }
    }
}

impl From<SubmitTxRet> for Message {
    fn from(r: SubmitTxRet) -> (m: Message) {
        match r {
            SubmitTxRet::AcceptTx => Message::AcceptTx,
            SubmitTxRet::RejectTx(param0) => Message::RejectTx(param0),
        }
    }
}

impl vstd::std_specs::convert::FromSpecImpl<SubmitTxRet> for Message {
    open spec fn obeys_from_spec() -> bool {
        true
    }

    open spec fn from_spec(r: SubmitTxRet) -> Message {
        r.message()
    }
}

/// Picks out the messages that may answer `SubmitTx`: those that are allowed
/// in state `Busy`.
pub fn client_submit_tx_ret(message: Message) -> (r: Option<SubmitTxRet>)
    ensures
        r is Some <==> exists|end: State| State::Busy.allows(&message, end),
        r matches Some(picked) ==> picked.message() == message,
{
    let ghost received = message;
    match message {
        Message::AcceptTx => {
            assert(State::Busy.allows(&received, State::Idle));
            Some(SubmitTxRet::AcceptTx)
        },
        Message::RejectTx(param0) => {
            assert(State::Busy.allows(&received, State::Idle));
            Some(SubmitTxRet::RejectTx(param0))
        },
        _ => None,
    }
}

/// What the client may send in state `Idle`.
#[derive(Clone, Debug)]
pub enum OnIdleMsg {
    SubmitTx(Tx),
    Done,
}

impl OnIdleMsg {
    /// The message that this is.
    pub open spec fn message(self) -> Message {
        match self {
            OnIdleMsg::SubmitTx(param0) => Message::SubmitTx(param0),
            OnIdleMsg::Done => Message::Done,
        }
    }
}

/// Picks out the messages that the client may send in state `Idle`.
pub fn server_idle_message_filter(message: Message) -> (r: Option<OnIdleMsg>)
    ensures
        r is Some <==> exists|end: State| State::Idle.allows(&message, end),
        r matches Some(picked) ==> picked.message() == message,
{
    let ghost received = message;
    match message {
        Message::SubmitTx(param0) => {
            assert(State::Idle.allows(&received, State::Busy));
            Some(OnIdleMsg::SubmitTx(param0))
        },
        Message::Done => {
            assert(State::Idle.allows(&received, State::Done));
            Some(OnIdleMsg::Done)
        },
        _ => None,
    }
}

/// A message is allowed in at most one way: the state it leads to is
/// determined by the state it is sent in.
pub proof fn lemma_one_end(state: State, message: Message, end1: State, end2: State)
    requires
        state.allows(&message, end1),
        state.allows(&message, end2),
    ensures
        end1 == end2,
{
}

/// Nobody may send in a state exactly when no message is allowed in it:
/// such a state is never left.
pub proof fn lemma_final_states(state: State)
    ensures
        state.agency() is None <==> forall|message: Message, end: State|
            !state.allows(&message, end),
{
    match state {
        State::Idle => {
            let witness = Message::SubmitTx(arbitrary());
            assert(state.allows(&witness, State::Busy));
        },
        State::Busy => {
            let witness = Message::AcceptTx;
            assert(state.allows(&witness, State::Idle));
        },
        State::Done => {},
    }
}

/// Whoever sends a message that is allowed has the right to speak: the
/// side that may send in a state is the side declared to send the
/// message.
pub proof fn lemma_sender_has_agency(state: State, message: Message, end: State)
    requires
        state.allows(&message, end),
    ensures
        state.agency() == Some(message.declared_sender()),
{
}

impl State {
    /// The place of the state in the list of the states.
    pub open spec fn place(self) -> usize {
        match self {
            State::Idle => 0,
            State::Busy => 1,
            State::Done => 2,
        }
    }

    /// The place of the state in the list of the states.
    pub fn index(self) -> (i: usize)
        ensures
            i == self.place(),
    {
        match self {
            State::Idle => 0,
            State::Busy => 1,
            State::Done => 2,
        }
    }
}

impl Message {
    /// The place of the message in the list of the messages.
    pub open spec fn place(&self) -> usize {
        match self {
            Message::SubmitTx(..) => 0,
            Message::AcceptTx => 1,
            Message::RejectTx(..) => 2,
            Message::Done => 3,
        }
    }

    /// The place of the message in the list of the messages.
    pub fn index(&self) -> (i: usize)
        ensures
            i == self.place(),
    {
        match self {
            Message::SubmitTx(..) => 0,
            Message::AcceptTx => 1,
            Message::RejectTx(..) => 2,
            Message::Done => 3,
        }
    }
}

/// The transitions of the protocol as they are declared, each state and
/// message by its place.
pub open spec fn declared() -> Seq<Transition> {
    seq![
        Transition { start: 0, message: 0, end: 1 },
        Transition { start: 1, message: 1, end: 0 },
        Transition { start: 1, message: 2, end: 0 },
        Transition { start: 0, message: 3, end: 2 },
    ]
}

/// The places of the messages that the client is declared to send.
pub open spec fn declared_clients() -> Seq<usize> {
    seq![0usize, 3usize]
}

/// The declaration of the protocol, as data.
pub fn declaration() -> (r: (Context, Vec<usize>))
    ensures
        r.0@ == declared(),
        r.1@ == declared_clients(),
{
    let mut transitions: Vec<Transition> = Vec::new();
    transitions.push(Transition { start: 0, message: 0, end: 1 });
    transitions.push(Transition { start: 1, message: 1, end: 0 });
    transitions.push(Transition { start: 1, message: 2, end: 0 });
    transitions.push(Transition { start: 0, message: 3, end: 2 });
    let mut clients: Vec<usize> = Vec::new();
    clients.push(0);
    clients.push(3);
    assert(transitions@ =~= declared());
    assert(clients@ =~= declared_clients());
    (Context::new(transitions), clients)
}

/// The relation is the declaration: a message is allowed in a state and
/// leads to another exactly when the transition function derived from the
/// declaration says so.
pub proof fn lemma_relation_is_declared(state: State, message: Message, end: State)
    ensures
        state.allows(&message, end) <==> next_state(declared(), state.place(), message.place())
            == Some(end.place()),
{
    reveal_with_fuel(next_state, 5);
    let d = declared();
    assert(d.skip(1) =~= d.skip(0).skip(1));
    assert(d.skip(2) =~= d.skip(1).skip(1));
    assert(d.skip(3) =~= d.skip(2).skip(1));
    assert(d.skip(4) =~= d.skip(3).skip(1));
    assert(d.skip(0) =~= d);
}

/// A message is written as an array: the number of its kind, then what it carries.
impl CborCodec for Message {
    open spec fn encodes(self, tree: Cbor) -> bool {
        tree matches Cbor::Array(items) && match self {
            Message::SubmitTx(f0) => items@.len() == 2 && is_u64(0, items@[0]) && f0.encodes(items@[1]),
            Message::AcceptTx => items@.len() == 1 && is_u64(1, items@[0]),
            Message::RejectTx(f0) => items@.len() == 2 && is_u64(2, items@[0]) && f0.encodes(items@[1]),
            Message::Done => items@.len() == 1 && is_u64(3, items@[0]),
        }
    }

    fn to_cbor(&self) -> (tree: Cbor) {
        let mut items: Vec<Cbor> = Vec::new();
        match self {
            Message::SubmitTx(f0) => {
                items.push(from_u64(0));
                items.push(f0.to_cbor());
            },
            Message::AcceptTx => {
                items.push(from_u64(1));
            },
            Message::RejectTx(f0) => {
                items.push(from_u64(2));
                items.push(f0.to_cbor());
            },
            Message::Done => {
                items.push(from_u64(3));
            },
        }
        Cbor::Array(items)
    }

    fn from_cbor(tree: &Cbor) -> (r: Result<Message, Undecodable>) {
        let items = match items_of(tree) {
            Ok(items) => items,
            Err(e) => {
                assert forall|value: Message| !value.encodes(*tree) by {}
                return Err(e);
            },
        };
        if items.len() == 0 {
            assert forall|value: Message| !value.encodes(*tree) by {}
            return Err(Undecodable);
        }
        let tag = match to_u64(&items[0]) {
            Ok(tag) => tag,
            Err(e) => {
                assert forall|value: Message| !value.encodes(*tree) by {}
                return Err(e);
            },
        };
        if tag == 0 {
            if items.len() != 2 {
                assert forall|value: Message| !value.encodes(*tree) by {}
                return Err(Undecodable);
            }
            let f0 = match Tx::from_cbor(&items[1]) {
                Ok(value) => value,
                Err(e) => {
                    assert forall|value: Message| !value.encodes(*tree) by {}
                    return Err(e);
                },
            };
            let read = Message::SubmitTx(f0);
            assert(read.encodes(*tree));
            Ok(read)
        } else if tag == 1 {
            if items.len() != 1 {
                assert forall|value: Message| !value.encodes(*tree) by {}
                return Err(Undecodable);
            }
            let read = Message::AcceptTx;
            assert(read.encodes(*tree));
            Ok(read)
        } else if tag == 2 {
            if items.len() != 2 {
                assert forall|value: Message| !value.encodes(*tree) by {}
                return Err(Undecodable);
            }
            let f0 = match <u64 as CborCodec>::from_cbor(&items[1]) {
                Ok(value) => value,
                Err(e) => {
                    assert forall|value: Message| !value.encodes(*tree) by {}
                    return Err(e);
                },
            };
            let read = Message::RejectTx(f0);
            assert(read.encodes(*tree));
            Ok(read)
        } else if tag == 3 {
            if items.len() != 1 {
                assert forall|value: Message| !value.encodes(*tree) by {}
                return Err(Undecodable);
            }
            let read = Message::Done;
            assert(read.encodes(*tree));
            Ok(read)
        } else {
            assert forall|value: Message| !value.encodes(*tree) by {}
            Err(Undecodable)
        }
    }
}
} // verus!
