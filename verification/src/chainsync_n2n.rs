//! Chain synchronisation between nodes: the client follows the chain of the
//! server, one header at a time.

use crate::cbor::{
    array_from, array_to, from_encoded_cbor, from_u64, is_array_of, is_bytes, is_encoded_cbor,
    is_u64, items_of, to_bytes, to_encoded_cbor, to_u64, Cbor, CborCodec, Undecodable,
};
use crate::frame::{Direction, Id};
use crate::protocol::Protocol;
use crate::protocol_numbers;
use crate::transitions::{next_state, Context, Transition};
use vstd::prelude::*;

verus! {

/// A position on a chain: its origin, or the block with a given slot and
/// header hash.
#[derive(Clone, Debug, PartialEq, Eq)]
pub enum Point {
    Origin,
    BlockHeader { slot_nb: u64, hash: [u8; 32] },
}

/// A block header as the CBOR item it was sent as. Its content is not looked at.
#[derive(Clone, Debug)]
pub struct CborChainsyncData(pub Vec<u8>);

impl CborChainsyncData {
    /// The bytes of the item.
    pub fn as_ref(&self) -> (bytes: &[u8])
        ensures
            bytes@ == self.0@,
    {
        self.0.as_slice()
    }
}

/// A list of points, most recent first by convention.
#[derive(Clone, Debug)]
pub struct Points(pub Vec<Point>);

/// The end of a chain: its last point and how many blocks lead to it.
#[derive(Clone, Debug, PartialEq, Eq)]
pub struct Tip {
    pub point: Point,
    pub block_number: u64,
}

impl Tip {
    /// The tip of a chain without blocks.
    pub fn origin() -> (tip: Tip)
        ensures
            tip.point == Point::Origin,
            tip.block_number == 0,
    {
        Tip { point: Point::Origin, block_number: 0 }
    }
}

/// A point is written as an array: empty for the origin, else the slot and
/// the 32 bytes of the hash.
impl CborCodec for Point {
    open spec fn encodes(self, tree: Cbor) -> bool {
        tree matches Cbor::Array(items) && match self {
            Point::Origin => items@.len() == 0,
            Point::BlockHeader { slot_nb, hash } => items@.len() == 2 && is_u64(slot_nb, items@[0])
                && is_bytes(hash@, items@[1]),
        }
    }

    fn to_cbor(&self) -> (tree: Cbor) {
        let mut items: Vec<Cbor> = Vec::new();
        match self {
            Point::Origin => {},
            Point::BlockHeader { slot_nb, hash } => {
                items.push(from_u64(*slot_nb));
                let mut bytes: Vec<u8> = Vec::new();
                let mut i: usize = 0;
                while i < 32
                    invariant
                        i <= 32,
                        bytes@ == hash@.take(i as int),
                    decreases 32 - i,
                {
                    bytes.push(hash[i]);
                    assert(bytes@ =~= hash@.take(i + 1));
                    i += 1;
                }
                assert(bytes@ =~= hash@);
                items.push(Cbor::Bytes(bytes));
            },
        }
        Cbor::Array(items)
    }

    fn from_cbor(tree: &Cbor) -> (r: Result<Point, Undecodable>) {
        let items = match items_of(tree) {
            Ok(items) => items,
            Err(e) => {
                assert forall|value: Point| !value.encodes(*tree) by {}
                return Err(e);
            },
        };
        if items.len() == 0 {
            assert(Point::Origin.encodes(*tree));
            Ok(Point::Origin)
        } else if items.len() == 2 {
            let slot_nb = match to_u64(&items[0]) {
                Ok(value) => value,
                Err(e) => {
                    assert forall|value: Point| !value.encodes(*tree) by {}
                    return Err(e);
                },
            };
            let bytes = match to_bytes(&items[1]) {
                Ok(value) => value,
                Err(e) => {
                    assert forall|value: Point| !value.encodes(*tree) by {}
                    return Err(e);
                },
            };
            if bytes.len() != 32 {
                assert forall|value: Point| !value.encodes(*tree) by {
                    if let Point::BlockHeader { slot_nb, hash } = value {
                        assert(hash@.len() == 32);
                    }
                }
                return Err(Undecodable);
            }
            let mut hash: [u8; 32] = [0u8; 32];
            let mut i: usize = 0;
            while i < 32
                invariant
                    i <= 32,
                    bytes@.len() == 32,
                    hash@.take(i as int) == bytes@.take(i as int),
                decreases 32 - i,
            {
                let ghost before = hash@;
                hash[i] = bytes[i];
                proof {
                    assert(hash@ == before.update(i as int, bytes@[i as int]));
                    assert(hash@.take(i + 1) =~= before.take(i as int).push(bytes@[i as int]));
                    assert(bytes@.take(i + 1) =~= bytes@.take(i as int).push(bytes@[i as int]));
                }
                i += 1;
            }
            assert(hash@ =~= bytes@) by {
                assert(hash@.take(32) =~= hash@);
                assert(bytes@.take(32) =~= bytes@);
            }
            let read = Point::BlockHeader { slot_nb, hash };
            assert(read.encodes(*tree));
            Ok(read)
        } else {
            assert forall|value: Point| !value.encodes(*tree) by {}
            Err(Undecodable)
        }
    }
}

/// A header is written as an item within an item: its bytes, with tag 24.
impl CborCodec for CborChainsyncData {
    open spec fn encodes(self, tree: Cbor) -> bool {
        is_encoded_cbor(self.0@, tree)
    }

    fn to_cbor(&self) -> (tree: Cbor) {
        from_encoded_cbor(&self.0)
    }

    fn from_cbor(tree: &Cbor) -> (r: Result<CborChainsyncData, Undecodable>) {
        match to_encoded_cbor(tree) {
            Ok(value) => {
                let read = CborChainsyncData(value);
                assert(read.encodes(*tree));
                Ok(read)
            },
            Err(e) => {
                assert forall|value: CborChainsyncData| !value.encodes(*tree) by {}
                Err(e)
            },
        }
    }
}
/// A list of points is written as the array of the points.
impl CborCodec for Points {
    open spec fn encodes(self, tree: Cbor) -> bool {
        is_array_of(self.0@, tree)
    }

    fn to_cbor(&self) -> (tree: Cbor) {
        array_from(&self.0)
    }

    fn from_cbor(tree: &Cbor) -> (r: Result<Points, Undecodable>) {
        match array_to::<Point>(tree) {
            Ok(value) => {
                let read = Points(value);
                assert(read.encodes(*tree));
                Ok(read)
            },
            Err(e) => {
                assert forall|value: Points| !value.encodes(*tree) by {}
                Err(e)
            },
        }
    }
}
/// A tip is written as an array: the point, then the number of blocks.
impl CborCodec for Tip {
    open spec fn encodes(self, tree: Cbor) -> bool {
        tree matches Cbor::Array(items) && items@.len() == 2 && self.point.encodes(items@[0]) && self.block_number.encodes(items@[1])
    }

    fn to_cbor(&self) -> (tree: Cbor) {
        let mut items: Vec<Cbor> = Vec::new();
        items.push(self.point.to_cbor());
        items.push(self.block_number.to_cbor());
        Cbor::Array(items)
    }

    fn from_cbor(tree: &Cbor) -> (r: Result<Tip, Undecodable>) {
        let items = match items_of(tree) {
            Ok(items) => items,
            Err(e) => {
                assert forall|value: Tip| !value.encodes(*tree) by {}
                return Err(e);
            },
        };
        if items.len() != 2 {
            assert forall|value: Tip| !value.encodes(*tree) by {}
            return Err(Undecodable);
        }
        let f0 = match Point::from_cbor(&items[0]) {
            Ok(value) => value,
            Err(e) => {
                assert forall|value: Tip| !value.encodes(*tree) by {}
                return Err(e);
            },
        };
        let f1 = match <u64 as CborCodec>::from_cbor(&items[1]) {
            Ok(value) => value,
            Err(e) => {
                assert forall|value: Tip| !value.encodes(*tree) by {}
                return Err(e);
            },
        };
        let read = Tip { point: f0, block_number: f1 };
        assert(read.encodes(*tree));
        Ok(read)
    }
}

/// The states of the chain synchronisation protocol.
#[derive(Clone, Copy, Debug, PartialEq, Eq, Structural)]
pub enum State {
    /// The client may ask.
    Idle,
    /// The conversation is over.
    Done,
    /// The server looks for a point both chains share.
    Intersect,
    /// The server answers at once or asks the client to wait.
    CanAwait,
    /// The client waits; the server answers when its chain changes.
    MustReply,
}

impl Default for State {
    /// The state in which every conversation begins.
    fn default() -> (s: State)
        ensures
            s == State::Idle,
    {
        State::Idle
    }
}

/// The messages of the chain synchronisation protocol.
#[derive(Clone, Debug)]
pub enum Message {
    /// Asks for the next change of the chain.
    RequestNext,
    /// Tells the client that it is at the tip and has to wait.
    AwaitReply,
    /// The chain grew by this header; with the tip.
    RollForward(CborChainsyncData, Tip),
    /// The chain went back to this point; with the tip.
    RollBackward(Point, Tip),
    /// Asks for the first of these points that the server knows.
    FindIntersect(Points),
    /// This point is shared; with the tip.
    IntersectionFound(Point, Tip),
    /// None of the points is known; with the tip.
    IntersectionNotFound(Tip),
    /// Ends the conversation.
    SyncDone,
}

impl Message {
    /// Whether the message is declared as one that the client sends.
    pub open spec fn client_sent(&self) -> bool {
        self is RequestNext || self is FindIntersect || self is SyncDone
    }

    /// The side that is declared to send the message: the initiator for a
    /// client's message, the responder for any other.
    pub open spec fn declared_sender(&self) -> Direction {
        if self.client_sent() {
            Direction::Initiator
        } else {
            Direction::Responder
        }
    }

    /// The side that is declared to send the message.
    pub fn sender(&self) -> (side: Direction)
        ensures
            side == self.declared_sender(),
    {
        match self {
            Message::RequestNext => Direction::Initiator,
            Message::AwaitReply => Direction::Responder,
            Message::RollForward(..) => Direction::Responder,
            Message::RollBackward(..) => Direction::Responder,
            Message::FindIntersect(..) => Direction::Initiator,
            Message::IntersectionFound(..) => Direction::Responder,
            Message::IntersectionNotFound(..) => Direction::Responder,
            Message::SyncDone => Direction::Initiator,
        }
    }

    /// The state that this message leads to from `current_state`, or `None`
    /// where the message is not allowed there.
    pub fn can_transition(&self, current_state: State) -> (next: Option<State>)
        ensures
            forall|end: State| next == Some(end) <==> current_state.allows(self, end),
    {
        match self {
            Message::RequestNext => match current_state {
                State::Idle => Some(State::CanAwait),
                _ => None,
            },
            Message::AwaitReply => match current_state {
                State::CanAwait => Some(State::MustReply),
                _ => None,
            },
            Message::RollForward(..) => match current_state {
                State::CanAwait => Some(State::Idle),
                State::MustReply => Some(State::Idle),
                _ => None,
            },
            Message::RollBackward(..) => match current_state {
                State::CanAwait => Some(State::Idle),
                State::MustReply => Some(State::Idle),
                _ => None,
            },
            Message::FindIntersect(..) => match current_state {
                State::Idle => Some(State::Intersect),
                _ => None,
            },
            Message::IntersectionFound(..) => match current_state {
                State::Intersect => Some(State::Idle),
                _ => None,
            },
            Message::IntersectionNotFound(..) => match current_state {
                State::Intersect => Some(State::Idle),
                _ => None,
            },
            Message::SyncDone => match current_state {
                State::Idle => Some(State::Done),
                _ => None,
            },
        }
    }
}

impl Protocol for State {
    type Message = Message;

    open spec fn allows(self, message: &Message, end: State) -> bool {
        ||| self is Idle && message is RequestNext && end is CanAwait
        ||| self is CanAwait && message is AwaitReply && end is MustReply
        ||| self is CanAwait && message is RollForward && end is Idle
        ||| self is MustReply && message is RollForward && end is Idle
        ||| self is CanAwait && message is RollBackward && end is Idle
        ||| self is MustReply && message is RollBackward && end is Idle
        ||| self is Idle && message is FindIntersect && end is Intersect
        ||| self is Intersect && message is IntersectionFound && end is Idle
        ||| self is Intersect && message is IntersectionNotFound && end is Idle
        ||| self is Idle && message is SyncDone && end is Done
    }

    open spec fn agency(self) -> Option<Direction> {
        match self {
            State::Idle => Some(Direction::Initiator),
            State::Done => None,
            State::Intersect => Some(Direction::Responder),
            State::CanAwait => Some(Direction::Responder),
            State::MustReply => Some(Direction::Responder),
        }
    }

    open spec fn number() -> u16 {
        protocol_numbers::CHAINSYNC_N2N
    }

    open spec fn max_size() -> usize {
        8192
    }

    fn protocol_number() -> (id: Id) {
        Id::new(protocol_numbers::CHAINSYNC_N2N)
    }

    fn message_max_size() -> (size: usize) {
        8192
    }

    fn transition(self, message: &Message) -> (next: Option<State>) {
        message.can_transition(self)
    }

    fn direction(self) -> (side: Option<Direction>) {
        match self {
            State::Idle => Some(Direction::Initiator),
            State::Done => None,
            State::Intersect => Some(Direction::Responder),
            State::CanAwait => Some(Direction::Responder),
            State::MustReply => Some(Direction::Responder),
        }
    }
}

/// What the server may answer to `RequestNext`.
#[derive(Clone, Debug)]
pub enum RequestNextRet {
    AwaitReply,
    RollForward(CborChainsyncData, Tip),
    RollBackward(Point, Tip),
}

impl RequestNextRet {
    /// The message that this is.
    pub open spec fn message(self) -> Message {
        match self {
            RequestNextRet::AwaitReply => Message::AwaitReply,
            RequestNextRet::RollForward(param0, param1) => Message::RollForward(param0, param1),
            RequestNextRet::RollBackward(param0, param1) => Message::RollBackward(param0, param1),
        }
    }
}

impl From<RequestNextRet> for Message {
    fn from(r: RequestNextRet) -> (m: Message) {
        match r {
            RequestNextRet::AwaitReply => Message::AwaitReply,
            RequestNextRet::RollForward(param0, param1) => Message::RollForward(param0, param1),
            RequestNextRet::RollBackward(param0, param1) => Message::RollBackward(param0, param1),
        }
    }
}

impl vstd::std_specs::convert::FromSpecImpl<RequestNextRet> for Message {
    open spec fn obeys_from_spec() -> bool {
        true
    }

    open spec fn from_spec(r: RequestNextRet) -> Message {
        r.message()
    }
}

/// Picks out the messages that may answer `RequestNext`: those that are allowed
/// in state `CanAwait`.
pub fn client_request_next_ret(message: Message) -> (r: Option<RequestNextRet>)
    ensures
        r is Some <==> exists|end: State| State::CanAwait.allows(&message, end),
        r matches Some(picked) ==> picked.message() == message,
{
    let ghost received = message;
    match message {
        Message::AwaitReply => {
            assert(State::CanAwait.allows(&received, State::MustReply));
            Some(RequestNextRet::AwaitReply)
        },
        Message::RollForward(param0, param1) => {
            assert(State::CanAwait.allows(&received, State::Idle));
            Some(RequestNextRet::RollForward(param0, param1))
        },
        Message::RollBackward(param0, param1) => {
            assert(State::CanAwait.allows(&received, State::Idle));
            Some(RequestNextRet::RollBackward(param0, param1))
        },
        _ => None,
    }
}

/// What the server may answer to `FindIntersect`.
#[derive(Clone, Debug)]
pub enum FindIntersectRet {
    IntersectionFound(Point, Tip),
    IntersectionNotFound(Tip),
}

impl FindIntersectRet {
    /// The message that this is.
    pub open spec fn message(self) -> Message {
        match self {
            FindIntersectRet::IntersectionFound(param0, param1) => Message::IntersectionFound(param0, param1),
            FindIntersectRet::IntersectionNotFound(param0) => Message::IntersectionNotFound(param0),
        }
    }
}

impl From<FindIntersectRet> for Message {
    fn from(r: FindIntersectRet) -> (m: Message) {
        match r {
            FindIntersectRet::IntersectionFound(param0, param1) => Message::IntersectionFound(param0, param1),
            FindIntersectRet::IntersectionNotFound(param0) => Message::IntersectionNotFound(param0),
        }
    }
}

impl vstd::std_specs::convert::FromSpecImpl<FindIntersectRet> for Message {
    open spec fn obeys_from_spec() -> bool {
        true
    }

    open spec fn from_spec(r: FindIntersectRet) -> Message {
        r.message()
    }
}

/// Picks out the messages that may answer `FindIntersect`: those that are allowed
/// in state `Intersect`.
pub fn client_find_intersect_ret(message: Message) -> (r: Option<FindIntersectRet>)
    ensures
        r is Some <==> exists|end: State| State::Intersect.allows(&message, end),
        r matches Some(picked) ==> picked.message() == message,
{
    let ghost received = message;
    match message {
        Message::IntersectionFound(param0, param1) => {
            assert(State::Intersect.allows(&received, State::Idle));
            Some(FindIntersectRet::IntersectionFound(param0, param1))
        },
        Message::IntersectionNotFound(param0) => {
            assert(State::Intersect.allows(&received, State::Idle));
            Some(FindIntersectRet::IntersectionNotFound(param0))
        },
        _ => None,
    }
}

/// What the client may send in state `Idle`.
#[derive(Clone, Debug)]
pub enum OnIdleMsg {
    RequestNext,
    FindIntersect(Points),
    SyncDone,
}

impl OnIdleMsg {
    /// The message that this is.
    pub open spec fn message(self) -> Message {
        match self {
            OnIdleMsg::RequestNext => Message::RequestNext,
            OnIdleMsg::FindIntersect(param0) => Message::FindIntersect(param0),
            OnIdleMsg::SyncDone => Message::SyncDone,
        }
    }
}

/// Picks out the messages that the client may send in state `Idle`.
pub fn server_idle_message_filter(message: Message) -> (r: Option<OnIdleMsg>)
    ensures
        r is Some <==> exists|end: State| State::Idle.allows(&message, end),
        r matches Some(picked) ==> picked.message() == message,
{
    let ghost received = message;
    match message {
        Message::RequestNext => {
            assert(State::Idle.allows(&received, State::CanAwait));
            Some(OnIdleMsg::RequestNext)
        },
        Message::FindIntersect(param0) => {
            assert(State::Idle.allows(&received, State::Intersect));
            Some(OnIdleMsg::FindIntersect(param0))
        },
        Message::SyncDone => {
            assert(State::Idle.allows(&received, State::Done));
            Some(OnIdleMsg::SyncDone)
        },
        _ => None,
    }
}

/// A message is allowed in at most one way: the state it leads to is
/// determined by the state it is sent in.
pub proof fn lemma_one_end(state: State, message: Message, end1: State, end2: State)
    requires
        state.allows(&message, end1),
        state.allows(&message, end2),
    ensures
        end1 == end2,
{
}

/// Nobody may send in a state exactly when no message is allowed in it:
/// such a state is never left.
pub proof fn lemma_final_states(state: State)
    ensures
        state.agency() is None <==> forall|message: Message, end: State|
            !state.allows(&message, end),
{
    match state {
        State::Idle => {
            let witness = Message::RequestNext;
            assert(state.allows(&witness, State::CanAwait));
        },
        State::Done => {},
        State::Intersect => {
            let witness = Message::IntersectionFound(arbitrary(), arbitrary());
            assert(state.allows(&witness, State::Idle));
        },
        State::CanAwait => {
            let witness = Message::AwaitReply;
            assert(state.allows(&witness, State::MustReply));
        },
        State::MustReply => {
            let witness = Message::RollForward(arbitrary(), arbitrary());
            assert(state.allows(&witness, State::Idle));
        },
    }
}

/// Whoever sends a message that is allowed has the right to speak: the
/// side that may send in a state is the side declared to send the
/// message.
pub proof fn lemma_sender_has_agency(state: State, message: Message, end: State)
    requires
        state.allows(&message, end),
    ensures
        state.agency() == Some(message.declared_sender()),
{
}

impl State {
    /// The place of the state in the list of the states.
    pub open spec fn place(self) -> usize {
        match self {
            State::Idle => 0,
            State::Done => 1,
            State::Intersect => 2,
            State::CanAwait => 3,
            State::MustReply => 4,
        }
    }

    /// The place of the state in the list of the states.
    pub fn index(self) -> (i: usize)
        ensures
            i == self.place(),
    {
        match self {
            State::Idle => 0,
            State::Done => 1,
            State::Intersect => 2,
            State::CanAwait => 3,
            State::MustReply => 4,
        }
    }
}

impl Message {
    /// The place of the message in the list of the messages.
    pub open spec fn place(&self) -> usize {
        match self {
            Message::RequestNext => 0,
            Message::AwaitReply => 1,
            Message::RollForward(..) => 2,
            Message::RollBackward(..) => 3,
            Message::FindIntersect(..) => 4,
            Message::IntersectionFound(..) => 5,
            Message::IntersectionNotFound(..) => 6,
            Message::SyncDone => 7,
        }
    }

    /// The place of the message in the list of the messages.
    pub fn index(&self) -> (i: usize)
        ensures
            i == self.place(),
    {
        match self {
            Message::RequestNext => 0,
            Message::AwaitReply => 1,
            Message::RollForward(..) => 2,
            Message::RollBackward(..) => 3,
            Message::FindIntersect(..) => 4,
            Message::IntersectionFound(..) => 5,
            Message::IntersectionNotFound(..) => 6,
            Message::SyncDone => 7,
        }
    }
}

/// The transitions of the protocol as they are declared, each state and
/// message by its place.
pub open spec fn declared() -> Seq<Transition> {
    seq![
        Transition { start: 0, message: 0, end: 3 },
        Transition { start: 3, message: 1, end: 4 },
        Transition { start: 3, message: 2, end: 0 },
        Transition { start: 4, message: 2, end: 0 },
        Transition { start: 3, message: 3, end: 0 },
        Transition { start: 4, message: 3, end: 0 },
        Transition { start: 0, message: 4, end: 2 },
        Transition { start: 2, message: 5, end: 0 },
        Transition { start: 2, message: 6, end: 0 },
        Transition { start: 0, message: 7, end: 1 },
    ]
}

/// The places of the messages that the client is declared to send.
pub open spec fn declared_clients() -> Seq<usize> {
    seq![0usize, 4usize, 7usize]
}

/// The declaration of the protocol, as data.
pub fn declaration() -> (r: (Context, Vec<usize>))
    ensures
        r.0@ == declared(),
        r.1@ == declared_clients(),
{
    let mut transitions: Vec<Transition> = Vec::new();
    transitions.push(Transition { start: 0, message: 0, end: 3 });
    transitions.push(Transition { start: 3, message: 1, end: 4 });
    transitions.push(Transition { start: 3, message: 2, end: 0 });
    transitions.push(Transition { start: 4, message: 2, end: 0 });
    transitions.push(Transition { start: 3, message: 3, end: 0 });
    transitions.push(Transition { start: 4, message: 3, end: 0 });
    transitions.push(Transition { start: 0, message: 4, end: 2 });
    transitions.push(Transition { start: 2, message: 5, end: 0 });
    transitions.push(Transition { start: 2, message: 6, end: 0 });
    transitions.push(Transition { start: 0, message: 7, end: 1 });
    let mut clients: Vec<usize> = Vec::new();
    clients.push(0);
    clients.push(4);
    clients.push(7);
    assert(transitions@ =~= declared());
    assert(clients@ =~= declared_clients());
    (Context::new(transitions), clients)
}

/// The relation is the declaration: a message is allowed in a state and
/// leads to another exactly when the transition function derived from the
/// declaration says so.
pub proof fn lemma_relation_is_declared(state: State, message: Message, end: State)
    ensures
        state.allows(&message, end) <==> next_state(declared(), state.place(), message.place())
            == Some(end.place()),
{
    reveal_with_fuel(next_state, 11);
    let d = declared();
    assert(d.skip(1) =~= d.skip(0).skip(1));
    assert(d.skip(2) =~= d.skip(1).skip(1));
    assert(d.skip(3) =~= d.skip(2).skip(1));
    assert(d.skip(4) =~= d.skip(3).skip(1));
    assert(d.skip(5) =~= d.skip(4).skip(1));
    assert(d.skip(6) =~= d.skip(5).skip(1));
    assert(d.skip(7) =~= d.skip(6).skip(1));
    assert(d.skip(8) =~= d.skip(7).skip(1));
    assert(d.skip(9) =~= d.skip(8).skip(1));
    assert(d.skip(10) =~= d.skip(9).skip(1));
    assert(d.skip(0) =~= d);
}

/// A message is written as an array: the number of its kind, then what it carries.
impl CborCodec for Message {
    open spec fn encodes(self, tree: Cbor) -> bool {
        tree matches Cbor::Array(items) && match self {
            Message::RequestNext => items@.len() == 1 && is_u64(0, items@[0]),
            Message::AwaitReply => items@.len() == 1 && is_u64(1, items@[0]),
            Message::RollForward(f0, f1) => items@.len() == 3 && is_u64(2, items@[0]) && f0.encodes(items@[1]) && f1.encodes(items@[2]),
            Message::RollBackward(f0, f1) => items@.len() == 3 && is_u64(3, items@[0]) && f0.encodes(items@[1]) && f1.encodes(items@[2]),
            Message::FindIntersect(f0) => items@.len() == 2 && is_u64(4, items@[0]) && f0.encodes(items@[1]),
            Message::IntersectionFound(f0, f1) => items@.len() == 3 && is_u64(5, items@[0]) && f0.encodes(items@[1]) && f1.encodes(items@[2]),
            Message::IntersectionNotFound(f0) => items@.len() == 2 && is_u64(6, items@[0]) && f0.encodes(items@[1]),
            Message::SyncDone => items@.len() == 1 && is_u64(7, items@[0]),
        }
    }

    fn to_cbor(&self) -> (tree: Cbor) {
        let mut items: Vec<Cbor> = Vec::new();
        match self {
            Message::RequestNext => {
                items.push(from_u64(0));
            },
            Message::AwaitReply => {
                items.push(from_u64(1));
            },
            Message::RollForward(f0, f1) => {
                items.push(from_u64(2));
                items.push(f0.to_cbor());
                items.push(f1.to_cbor());
            },
            Message::RollBackward(f0, f1) => {
                items.push(from_u64(3));
                items.push(f0.to_cbor());
                items.push(f1.to_cbor());
            },
            Message::FindIntersect(f0) => {
                items.push(from_u64(4));
                items.push(f0.to_cbor());
            },
            Message::IntersectionFound(f0, f1) => {
                items.push(from_u64(5));
                items.push(f0.to_cbor());
                items.push(f1.to_cbor());
            },
            Message::IntersectionNotFound(f0) => {
                items.push(from_u64(6));
                items.push(f0.to_cbor());
            },
            Message::SyncDone => {
                items.push(from_u64(7));
            },
        }
        Cbor::Array(items)
    }

    fn from_cbor(tree: &Cbor) -> (r: Result<Message, Undecodable>) {
        let items = match items_of(tree) {
            Ok(items) => items,
            Err(e) => {
                assert forall|value: Message| !value.encodes(*tree) by {}
                return Err(e);
            },
        };
        if items.len() == 0 {
            assert forall|value: Message| !value.encodes(*tree) by {}
            return Err(Undecodable);
        }
        let tag = match to_u64(&items[0]) {
            Ok(tag) => tag,
            Err(e) => {
                assert forall|value: Message| !value.encodes(*tree) by {}
                return Err(e);
            },
        };
        if tag == 0 {
            if items.len() != 1 {
                assert forall|value: Message| !value.encodes(*tree) by {}
                return Err(Undecodable);
            }
            let read = Message::RequestNext;
            assert(read.encodes(*tree));
            Ok(read)
        } else if tag == 1 {
            if items.len() != 1 {
                assert forall|value: Message| !value.encodes(*tree) by {}
                return Err(Undecodable);
            }
            let read = Message::AwaitReply;
            assert(read.encodes(*tree));
            Ok(read)
        } else if tag == 2 {
            if items.len() != 3 {
                assert forall|value: Message| !value.encodes(*tree) by {}
                return Err(Undecodable);
            }
            let f0 = match CborChainsyncData::from_cbor(&items[1]) {
                Ok(value) => value,
                Err(e) => {
                    assert forall|value: Message| !value.encodes(*tree) by {}
                    return Err(e);
                },
            };
            let f1 = match Tip::from_cbor(&items[2]) {
                Ok(value) => value,
                Err(e) => {
                    assert forall|value: Message| !value.encodes(*tree) by {}
                    return Err(e);
                },
            };
            let read = Message::RollForward(f0, f1);
            assert(read.encodes(*tree));
            Ok(read)
        } else if tag == 3 {
            if items.len() != 3 {
                assert forall|value: Message| !value.encodes(*tree) by {}
                return Err(Undecodable);
            }
            let f0 = match Point::from_cbor(&items[1]) {
                Ok(value) => value,
                Err(e) => {
                    assert forall|value: Message| !value.encodes(*tree) by {}
                    return Err(e);
                },
            };
            let f1 = match Tip::from_cbor(&items[2]) {
                Ok(value) => value,
                Err(e) => {
                    assert forall|value: Message| !value.encodes(*tree) by {}
                    return Err(e);
                },
            };
            let read = Message::RollBackward(f0, f1);
            assert(read.encodes(*tree));
            Ok(read)
        } else if tag == 4 {
            if items.len() != 2 {
                assert forall|value: Message| !value.encodes(*tree) by {}
                return Err(Undecodable);
            }
            let f0 = match Points::from_cbor(&items[1]) {
                Ok(value) => value,
                Err(e) => {
                    assert forall|value: Message| !value.encodes(*tree) by {}
                    return Err(e);
                },
            };
            let read = Message::FindIntersect(f0);
            assert(read.encodes(*tree));
            Ok(read)
        } else if tag == 5 {
            if items.len() != 3 {
                assert forall|value: Message| !value.encodes(*tree) by {}
                return Err(Undecodable);
            }
            let f0 = match Point::from_cbor(&items[1]) {
                Ok(value) => value,
                Err(e) => {
                    assert forall|value: Message| !value.encodes(*tree) by {}
                    return Err(e);
                },
            };
            let f1 = match Tip::from_cbor(&items[2]) {
                Ok(value) => value,
                Err(e) => {
                    assert forall|value: Message| !value.encodes(*tree) by {}
                    return Err(e);
                },
            };
            let read = Message::IntersectionFound(f0, f1);
            assert(read.encodes(*tree));
            Ok(read)
        } else if tag == 6 {
            if items.len() != 2 {
                assert forall|value: Message| !value.encodes(*tree) by {}
                return Err(Undecodable);
            }
            let f0 = match Tip::from_cbor(&items[1]) {
                Ok(value) => value,
                Err(e) => {
                    assert forall|value: Message| !value.encodes(*tree) by {}
                    return Err(e);
                },
            };
            let read = Message::IntersectionNotFound(f0);
            assert(read.encodes(*tree));
            Ok(read)
        } else if tag == 7 {
            if items.len() != 1 {
                assert forall|value: Message| !value.encodes(*tree) by {}
                return Err(Undecodable);
            }
            let read = Message::SyncDone;
            assert(read.encodes(*tree));
            Ok(read)
        } else {
            assert forall|value: Message| !value.encodes(*tree) by {}
            Err(Undecodable)
        }
    }
}
} // verus!
