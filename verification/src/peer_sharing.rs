//! Peer sharing: the client asks the server for peers it knows.

use crate::cbor::{
    array_from, array_to, from_u64, is_array_of, is_u64, items_of, to_u64, Cbor, CborCodec,
    Undecodable,
};
use crate::frame::{Direction, Id};
use crate::protocol::Protocol;
use crate::protocol_numbers;
use crate::transitions::{next_state, Context, Transition};
use vstd::prelude::*;

verus! {

/// A peer as it is told on the wire: an address of four or of sixteen bytes,
/// as 32-bit words, and a port.
#[derive(Clone, Debug)]
pub enum Peer {
    IPV4(u32, u16),
    IPV6(u32, u32, u32, u32, u16),
}

/// The address and port of a peer, in the usual representation.
#[derive(Clone, Copy, Debug, PartialEq, Eq)]
pub enum PeerAddress {
    /// The four bytes of the address, first byte first, and the port.
    V4([u8; 4], u16),
    /// The eight 16-bit groups of the address, first group first, and the port.
    V6([u16; 8], u16),
}

proof fn lemma_word_parts(w: u32)
    by (bit_vector)
    ensures
        (w >> 24) & 0xff == w / 0x100_0000,
        (w >> 16) & 0xff == w / 0x1_0000 % 0x100,
        (w >> 8) & 0xff == w / 0x100 % 0x100,
        w & 0xff == w % 0x100,
        w >> 16 == w / 0x1_0000,
        w & 0xffff == w % 0x1_0000,
        w >> 16 <= 0xffff,
{
}

impl Peer {
    /// The address of the peer as a model value: a 32-bit word gives four
    /// bytes, or two groups, highest first.
    pub open spec fn address(self) -> PeerAddressView {
        match self {
            Peer::IPV4(bits, port) => PeerAddressView::V4(
                seq![
                    (bits / 0x100_0000) as u8,
                    (bits / 0x1_0000 % 0x100) as u8,
                    (bits / 0x100 % 0x100) as u8,
                    (bits % 0x100) as u8,
                ],
                port,
            ),
            Peer::IPV6(w0, w1, w2, w3, port) => PeerAddressView::V6(
                seq![
                    (w0 / 0x1_0000) as u16,
                    (w0 % 0x1_0000) as u16,
                    (w1 / 0x1_0000) as u16,
                    (w1 % 0x1_0000) as u16,
                    (w2 / 0x1_0000) as u16,
                    (w2 % 0x1_0000) as u16,
                    (w3 / 0x1_0000) as u16,
                    (w3 % 0x1_0000) as u16,
                ],
                port,
            ),
        }
    }

    /// The address and port of the peer, in the usual representation.
    pub fn to_socketaddr(&self) -> (a: PeerAddress)
        ensures
            a@ == self.address(),
    {
        match *self {
            Peer::IPV4(bits, port) => {
                proof {
                    lemma_word_parts(bits);
                }
                let octets: [u8; 4] = [
                    ((bits >> 24) & 0xff) as u8,
                    ((bits >> 16) & 0xff) as u8,
                    ((bits >> 8) & 0xff) as u8,
                    (bits & 0xff) as u8,
                ];
                let a = PeerAddress::V4(octets, port);
                assert(a@ matches PeerAddressView::V4(o, p) && o =~= self.address()->V4_0 && p
                    == port);
                a
            },
            Peer::IPV6(w0, w1, w2, w3, port) => {
                proof {
                    lemma_word_parts(w0);
                    lemma_word_parts(w1);
                    lemma_word_parts(w2);
                    lemma_word_parts(w3);
                }
                let parts: [u16; 8] = [
                    (w0 >> 16) as u16,
                    (w0 & 0xFFFF) as u16,
                    (w1 >> 16) as u16,
                    (w1 & 0xFFFF) as u16,
                    (w2 >> 16) as u16,
                    (w2 & 0xFFFF) as u16,
                    (w3 >> 16) as u16,
                    (w3 & 0xFFFF) as u16,
                ];
                let a = PeerAddress::V6(parts, port);
                assert(a@ matches PeerAddressView::V6(g, p) && g =~= self.address()->V6_0 && p
                    == port);
                a
            },
        }
    }
}

/// The address and port of a peer, as a value of the model.
pub enum PeerAddressView {
    V4(Seq<u8>, u16),
    V6(Seq<u16>, u16),
}

impl View for PeerAddress {
    type V = PeerAddressView;

    open spec fn view(&self) -> PeerAddressView {
        match *self {
            PeerAddress::V4(octets, port) => PeerAddressView::V4(octets@, port),
            PeerAddress::V6(groups, port) => PeerAddressView::V6(groups@, port),
        }
    }
}
/// A peer is written as an array: the number of its kind, the words of its address, its port.
impl CborCodec for Peer {
    open spec fn encodes(self, tree: Cbor) -> bool {
        tree matches Cbor::Array(items) && match self {
            Peer::IPV4(f0, f1) => items@.len() == 3 && is_u64(0, items@[0]) && f0.encodes(items@[1]) && f1.encodes(items@[2]),
            Peer::IPV6(f0, f1, f2, f3, f4) => items@.len() == 6 && is_u64(1, items@[0]) && f0.encodes(items@[1]) && f1.encodes(items@[2]) && f2.encodes(items@[3]) && f3.encodes(items@[4]) && f4.encodes(items@[5]),
        }
    }

    fn to_cbor(&self) -> (tree: Cbor) {
        let mut items: Vec<Cbor> = Vec::new();
        match self {
            Peer::IPV4(f0, f1) => {
                items.push(from_u64(0));
                items.push(f0.to_cbor());
                items.push(f1.to_cbor());
            },
            Peer::IPV6(f0, f1, f2, f3, f4) => {
                items.push(from_u64(1));
                items.push(f0.to_cbor());
                items.push(f1.to_cbor());
                items.push(f2.to_cbor());
                items.push(f3.to_cbor());
                items.push(f4.to_cbor());
            },
        }
        Cbor::Array(items)
    }

    fn from_cbor(tree: &Cbor) -> (r: Result<Peer, Undecodable>) {
        let items = match items_of(tree) {
            Ok(items) => items,
            Err(e) => {
                assert forall|value: Peer| !value.encodes(*tree) by {}
                return Err(e);
            },
        };
        if items.len() == 0 {
            assert forall|value: Peer| !value.encodes(*tree) by {}
            return Err(Undecodable);
        }
        let tag = match to_u64(&items[0]) {
            Ok(tag) => tag,
            Err(e) => {
                assert forall|value: Peer| !value.encodes(*tree) by {}
                return Err(e);
            },
        };
        if tag == 0 {
            if items.len() != 3 {
                assert forall|value: Peer| !value.encodes(*tree) by {}
                return Err(Undecodable);
            }
            let f0 = match <u32 as CborCodec>::from_cbor(&items[1]) {
                Ok(value) => value,
                Err(e) => {
                    assert forall|value: Peer| !value.encodes(*tree) by {}
                    return Err(e);
                },
            };
            let f1 = match <u16 as CborCodec>::from_cbor(&items[2]) {
                Ok(value) => value,
                Err(e) => {
                    assert forall|value: Peer| !value.encodes(*tree) by {}
                    return Err(e);
                },
            };
            let read = Peer::IPV4(f0, f1);
            assert(read.encodes(*tree));
            Ok(read)
        } else if tag == 1 {
            if items.len() != 6 {
                assert forall|value: Peer| !value.encodes(*tree) by {}
                return Err(Undecodable);
            }
            let f0 = match <u32 as CborCodec>::from_cbor(&items[1]) {
                Ok(value) => value,
                Err(e) => {
                    assert forall|value: Peer| !value.encodes(*tree) by {}
                    return Err(e);
                },
            };
            let f1 = match <u32 as CborCodec>::from_cbor(&items[2]) {
                Ok(value) => value,
                Err(e) => {
                    assert forall|value: Peer| !value.encodes(*tree) by {}
                    return Err(e);
                },
            };
            let f2 = match <u32 as CborCodec>::from_cbor(&items[3]) {
                Ok(value) => value,
                Err(e) => {
                    assert forall|value: Peer| !value.encodes(*tree) by {}
                    return Err(e);
                },
            };
            let f3 = match <u32 as CborCodec>::from_cbor(&items[4]) {
                Ok(value) => value,
                Err(e) => {
                    assert forall|value: Peer| !value.encodes(*tree) by {}
                    return Err(e);
                },
            };
            let f4 = match <u16 as CborCodec>::from_cbor(&items[5]) {
                Ok(value) => value,
                Err(e) => {
                    assert forall|value: Peer| !value.encodes(*tree) by {}
                    return Err(e);
                },
            };
            let read = Peer::IPV6(f0, f1, f2, f3, f4);
            assert(read.encodes(*tree));
            Ok(read)
        } else {
            assert forall|value: Peer| !value.encodes(*tree) by {}
            Err(Undecodable)
        }
    }
}

/// The states of the peer sharing protocol.
#[derive(Clone, Copy, Debug, PartialEq, Eq, Structural)]
pub enum State {
    /// The client may ask for peers or end the conversation.
    Idle,
    /// The server picks the peers it tells.
    Busy,
    /// The conversation is over.
    Done,
}

impl Default for State {
    /// The state in which every conversation begins.
    fn default() -> (s: State)
        ensures
            s == State::Idle,
    {
        State::Idle
    }
}

/// The messages of the peer sharing protocol.
#[derive(Clone, Debug)]
pub enum Message {
    /// Asks for at most this many peers.
    ShareRequest(u8),
    /// Peers the server knows.
    SharePeers(Vec<Peer>),
    /// Ends the conversation.
    Done,
}

impl Message {
    /// Whether the message is declared as one that the client sends.
    pub open spec fn client_sent(&self) -> bool {
        self is ShareRequest || self is Done
    }

    /// The side that is declared to send the message: the initiator for a
    /// client's message, the responder for any other.
    pub open spec fn declared_sender(&self) -> Direction {
        if self.client_sent() {
            Direction::Initiator
        } else {
            Direction::Responder
        }
    }

    /// The side that is declared to send the message.
    pub fn sender(&self) -> (side: Direction)
        ensures
            side == self.declared_sender(),
    {
        match self {
            Message::ShareRequest(..) => Direction::Initiator,
            Message::SharePeers(..) => Direction::Responder,
            Message::Done => Direction::Initiator,
        }
    }

    /// The state that this message leads to from `current_state`, or `None`
    /// where the message is not allowed there.
    pub fn can_transition(&self, current_state: State) -> (next: Option<State>)
        ensures
            forall|end: State| next == Some(end) <==> current_state.allows(self, end),
    {
        match self {
            Message::ShareRequest(..) => match current_state {
                State::Idle => Some(State::Busy),
                _ => None,
            },
            Message::SharePeers(..) => match current_state {
                State::Busy => Some(State::Idle),
                _ => None,
            },
            Message::Done => match current_state {
                State::Idle => Some(State::Done),
                _ => None,
            },
        }
    }
}

impl Protocol for State {
    type Message = Message;

    open spec fn allows(self, message: &Message, end: State) -> bool {
        ||| self is Idle && message is ShareRequest && end is Busy
        ||| self is Busy && message is SharePeers && end is Idle
        ||| self is Idle && message is Done && end is Done
    }

    open spec fn agency(self) -> Option<Direction> {
        match self {
            State::Idle => Some(Direction::Initiator),
            State::Busy => Some(Direction::Responder),
            State::Done => None,
        }
    }

    open spec fn number() -> u16 {
        protocol_numbers::PEER_SHARING
    }

    open spec fn max_size() -> usize {
        8192
    }

    fn protocol_number() -> (id: Id) {
        Id::new(protocol_numbers::PEER_SHARING)
    }

    fn message_max_size() -> (size: usize) {
        8192
    }

    fn transition(self, message: &Message) -> (next: Option<State>) {
        message.can_transition(self)
    }

    fn direction(self) -> (side: Option<Direction>) {
        match self {
            State::Idle => Some(Direction::Initiator),
            State::Busy => Some(Direction::Responder),
            State::Done => None,
        }
    }
}

/// Picks out the one message that may answer `ShareRequest`, `SharePeers`, and gives
/// what it carries.
pub fn client_share_request_ret(message: Message) -> (r: Option<Vec<Peer>>)
    ensures
        r is Some <==> exists|end: State| State::Busy.allows(&message, end),
        r matches Some(carried) ==> message == Message::SharePeers(carried),
{
    let ghost received = message;
    match message {
        Message::SharePeers(param0) => {
            assert(State::Busy.allows(&received, State::Idle));
            Some(param0)
        },
        _ => None,
    }
}

/// What the client may send in state `Idle`.
#[derive(Clone, Debug)]
pub enum OnIdleMsg {
    ShareRequest(u8),
    Done,
}

impl OnIdleMsg {
    /// The message that this is.
    pub open spec fn message(self) -> Message {
        match self {
            OnIdleMsg::ShareRequest(param0) => Message::ShareRequest(param0),
            OnIdleMsg::Done => Message::Done,
        }
    }
}

/// Picks out the messages that the client may send in state `Idle`.
pub fn server_idle_message_filter(message: Message) -> (r: Option<OnIdleMsg>)
    ensures
        r is Some <==> exists|end: State| State::Idle.allows(&message, end),
        r matches Some(picked) ==> picked.message() == message,
{
    let ghost received = message;
    match message {
        Message::ShareRequest(param0) => {
            assert(State::Idle.allows(&received, State::Busy));
            Some(OnIdleMsg::ShareRequest(param0))
        },
        Message::Done => {
            assert(State::Idle.allows(&received, State::Done));
            Some(OnIdleMsg::Done)
        },
        _ => None,
    }
}

/// A message is allowed in at most one way: the state it leads to is
/// determined by the state it is sent in.
pub proof fn lemma_one_end(state: State, message: Message, end1: State, end2: State)
    requires
        state.allows(&message, end1),
        state.allows(&message, end2),
    ensures
        end1 == end2,
{
}

/// Nobody may send in a state exactly when no message is allowed in it:
/// such a state is never left.
pub proof fn lemma_final_states(state: State)
    ensures
        state.agency() is None <==> forall|message: Message, end: State|
            !state.allows(&message, end),
{
    match state {
        State::Idle => {
            let witness = Message::ShareRequest(arbitrary());
            assert(state.allows(&witness, State::Busy));
        },
        State::Busy => {
            let witness = Message::SharePeers(arbitrary());
            assert(state.allows(&witness, State::Idle));
        },
        State::Done => {},
    }
}

/// Whoever sends a message that is allowed has the right to speak: the
/// side that may send in a state is the side declared to send the
/// message.
pub proof fn lemma_sender_has_agency(state: State, message: Message, end: State)
    requires
        state.allows(&message, end),
    ensures
        state.agency() == Some(message.declared_sender()),
{
}

impl State {
    /// The place of the state in the list of the states.
    pub open spec fn place(self) -> usize {
        match self {
            State::Idle => 0,
            State::Busy => 1,
            State::Done => 2,
        }
    }

    /// The place of the state in the list of the states.
    pub fn index(self) -> (i: usize)
        ensures
            i == self.place(),
    {
        match self {
            State::Idle => 0,
            State::Busy => 1,
            State::Done => 2,
        }
    }
}

impl Message {
    /// The place of the message in the list of the messages.
    pub open spec fn place(&self) -> usize {
        match self {
            Message::ShareRequest(..) => 0,
            Message::SharePeers(..) => 1,
            Message::Done => 2,
        }
    }

    /// The place of the message in the list of the messages.
    pub fn index(&self) -> (i: usize)
        ensures
            i == self.place(),
    {
        match self {
            Message::ShareRequest(..) => 0,
            Message::SharePeers(..) => 1,
            Message::Done => 2,
        }
    }
}

/// The transitions of the protocol as they are declared, each state and
/// message by its place.
pub open spec fn declared() -> Seq<Transition> {
    seq![
        Transition { start: 0, message: 0, end: 1 },
        Transition { start: 1, message: 1, end: 0 },
        Transition { start: 0, message: 2, end: 2 },
    ]
}

/// The places of the messages that the client is declared to send.
pub open spec fn declared_clients() -> Seq<usize> {
    seq![0usize, 2usize]
}

/// The declaration of the protocol, as data.
pub fn declaration() -> (r: (Context, Vec<usize>))
    ensures
        r.0@ == declared(),
        r.1@ == declared_clients(),
{
    let mut transitions: Vec<Transition> = Vec::new();
    transitions.push(Transition { start: 0, message: 0, end: 1 });
    transitions.push(Transition { start: 1, message: 1, end: 0 });
    transitions.push(Transition { start: 0, message: 2, end: 2 });
    let mut clients: Vec<usize> = Vec::new();
    clients.push(0);
    clients.push(2);
    assert(transitions@ =~= declared());
    assert(clients@ =~= declared_clients());
    (Context::new(transitions), clients)
}

/// The relation is the declaration: a message is allowed in a state and
/// leads to another exactly when the transition function derived from the
/// declaration says so.
pub proof fn lemma_relation_is_declared(state: State, message: Message, end: State)
    ensures
        state.allows(&message, end) <==> next_state(declared(), state.place(), message.place())
            == Some(end.place()),
{
    reveal_with_fuel(next_state, 4);
    let d = declared();
    assert(d.skip(1) =~= d.skip(0).skip(1));
    assert(d.skip(2) =~= d.skip(1).skip(1));
    assert(d.skip(3) =~= d.skip(2).skip(1));
    assert(d.skip(0) =~= d);
}

/// A message is written as an array: the number of its kind, then what it carries.
impl CborCodec for Message {
    open spec fn encodes(self, tree: Cbor) -> bool {
        tree matches Cbor::Array(items) && match self {
            Message::ShareRequest(f0) => items@.len() == 2 && is_u64(0, items@[0]) && f0.encodes(items@[1]),
            Message::SharePeers(f0) => items@.len() == 2 && is_u64(1, items@[0]) && is_array_of(f0@, items@[1]),
            Message::Done => items@.len() == 1 && is_u64(2, items@[0]),
        }
    }

    fn to_cbor(&self) -> (tree: Cbor) {
        let mut items: Vec<Cbor> = Vec::new();
        match self {
            Message::ShareRequest(f0) => {
                items.push(from_u64(0));
                items.push(f0.to_cbor());
            },
            Message::SharePeers(f0) => {
                items.push(from_u64(1));
                items.push(array_from(f0));
            },
            Message::Done => {
                items.push(from_u64(2));
            },
        }
        Cbor::Array(items)
    }

    fn from_cbor(tree: &Cbor) -> (r: Result<Message, Undecodable>) {
        let items = match items_of(tree) {
            Ok(items) => items,
            Err(e) => {
                assert forall|value: Message| !value.encodes(*tree) by {}
                return Err(e);
            },
        };
        if items.len() == 0 {
            assert forall|value: Message| !value.encodes(*tree) by {}
            return Err(Undecodable);
        }
        let tag = match to_u64(&items[0]) {
            Ok(tag) => tag,
            Err(e) => {
                assert forall|value: Message| !value.encodes(*tree) by {}
                return Err(e);
            },
        };
        if tag == 0 {
            if items.len() != 2 {
                assert forall|value: Message| !value.encodes(*tree) by {}
                return Err(Undecodable);
            }
            let f0 = match <u8 as CborCodec>::from_cbor(&items[1]) {
                Ok(value) => value,
                Err(e) => {
                    assert forall|value: Message| !value.encodes(*tree) by {}
                    return Err(e);
                },
            };
            let read = Message::ShareRequest(f0);
            assert(read.encodes(*tree));
            Ok(read)
        } else if tag == 1 {
            if items.len() != 2 {
                assert forall|value: Message| !value.encodes(*tree) by {}
                return Err(Undecodable);
            }
            let f0 = match array_to::<Peer>(&items[1]) {
                Ok(value) => value,
                Err(e) => {
                    assert forall|value: Message| !value.encodes(*tree) by {}
                    return Err(e);
                },
            };
            let read = Message::SharePeers(f0);
            assert(read.encodes(*tree));
            Ok(read)
        } else if tag == 2 {
            if items.len() != 1 {
                assert forall|value: Message| !value.encodes(*tree) by {}
                return Err(Undecodable);
            }
            let read = Message::Done;
            assert(read.encodes(*tree));
            Ok(read)
        } else {
            assert forall|value: Message| !value.encodes(*tree) by {}
            Err(Undecodable)
        }
    }
}
} // verus!
