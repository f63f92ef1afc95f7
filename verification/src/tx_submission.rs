//! Transaction submission between nodes: the server asks for the
//! transactions the client has, first by identifier.

use crate::cbor::{
    array_from, array_to, from_bytes, from_u64, is_array_of, is_bytes, is_u64, items_of, to_bytes,
    to_u64, Cbor, CborCodec, Undecodable,
};
use crate::frame::{Direction, Id};
use crate::protocol::Protocol;
use crate::protocol_numbers;
use crate::transitions::{next_state, Context, Transition};
use vstd::prelude::*;

verus! {

/// The identifier of a transaction, as bytes.
#[derive(Clone, Debug)]
pub struct TxId(pub Vec<u8>);

/// A transaction, as bytes.
#[derive(Clone, Debug)]
pub struct Tx(pub Vec<u8>);

/// The identifier of a transaction and the size of the transaction in bytes.
#[derive(Clone, Debug)]
pub struct TxIdAndSize {
    pub id: TxId,
    pub size: u32,
}
/// An identifier is written as a byte string.
impl CborCodec for TxId {
    open spec fn encodes(self, tree: Cbor) -> bool {
        is_bytes(self.0@, tree)
    }

    fn to_cbor(&self) -> (tree: Cbor) {
        from_bytes(&self.0)
    }

    fn from_cbor(tree: &Cbor) -> (r: Result<TxId, Undecodable>) {
        match to_bytes(tree) {
            Ok(value) => {
                let read = TxId(value);
                assert(read.encodes(*tree));
                Ok(read)
            },
            Err(e) => {
                assert forall|value: TxId| !value.encodes(*tree) by {}
                Err(e)
            },
        }
    }
}
/// A transaction is written as a byte string.
impl CborCodec for Tx {
    open spec fn encodes(self, tree: Cbor) -> bool {
        is_bytes(self.0@, tree)
    }

    fn to_cbor(&self) -> (tree: Cbor) {
        from_bytes(&self.0)
    }

    fn from_cbor(tree: &Cbor) -> (r: Result<Tx, Undecodable>) {
        match to_bytes(tree) {
            Ok(value) => {
                let read = Tx(value);
                assert(read.encodes(*tree));
                Ok(read)
            },
            Err(e) => {
                assert forall|value: Tx| !value.encodes(*tree) by {}
                Err(e)
            },
        }
    }
}
/// Written as an array: the identifier, then the size.
impl CborCodec for TxIdAndSize {
    open spec fn encodes(self, tree: Cbor) -> bool {
        tree matches Cbor::Array(items) && items@.len() == 2 && self.id.encodes(items@[0]) && self.size.encodes(items@[1])
    }

    fn to_cbor(&self) -> (tree: Cbor) {
        let mut items: Vec<Cbor> = Vec::new();
        items.push(self.id.to_cbor());
        items.push(self.size.to_cbor());
        Cbor::Array(items)
    }

    fn from_cbor(tree: &Cbor) -> (r: Result<TxIdAndSize, Undecodable>) {
        let items = match items_of(tree) {
            Ok(items) => items,
            Err(e) => {
                assert forall|value: TxIdAndSize| !value.encodes(*tree) by {}
                return Err(e);
            },
        };
        if items.len() != 2 {
            assert forall|value: TxIdAndSize| !value.encodes(*tree) by {}
            return Err(Undecodable);
        }
        let f0 = match TxId::from_cbor(&items[0]) {
            Ok(value) => value,
            Err(e) => {
                assert forall|value: TxIdAndSize| !value.encodes(*tree) by {}
                return Err(e);
            },
        };
        let f1 = match <u32 as CborCodec>::from_cbor(&items[1]) {
            Ok(value) => value,
            Err(e) => {
                assert forall|value: TxIdAndSize| !value.encodes(*tree) by {}
                return Err(e);
            },
        };
        let read = TxIdAndSize { id: f0, size: f1 };
        assert(read.encodes(*tree));
        Ok(read)
    }
}

/// The states of the transaction submission protocol.
#[derive(Clone, Copy, Debug, PartialEq, Eq, Structural)]
pub enum State {
    /// The client opens the conversation.
    Init,
    /// The server may ask for identifiers or for transactions.
    Idle,
    /// The client sends the transactions asked for.
    Txs,
    /// The client sends identifiers once it has some, or ends the conversation.
    TxIdsBlocking,
    /// The client sends the identifiers it has.
    TxIdsNonBlocking,
    /// The conversation is over.
    Done,
}

impl Default for State {
    /// The state in which every conversation begins.
    fn default() -> (s: State)
        ensures
            s == State::Init,
    {
        State::Init
    }
}

/// The messages of the transaction submission protocol.
#[derive(Clone, Debug)]
pub enum Message {
    /// Opens the conversation.
    Init,
    /// Asks for identifiers: whether to wait for some, how many are acknowledged, how many are wanted.
    RequestTxIds(bool, u16, u16),
    /// Identifiers of transactions, each with the size of its transaction.
    ReplyTxIds(Vec<TxIdAndSize>),
    /// Asks for the transactions with these identifiers.
    RequestTxs(Vec<TxId>),
    /// The transactions asked for.
    ReplyTxs(Vec<Tx>),
    /// Ends the conversation.
    Done,
}

impl Message {
    /// Whether the message is declared as one that the client sends.
    pub open spec fn client_sent(&self) -> bool {
        self is Init || self is ReplyTxIds || self is ReplyTxs || self is Done
    }

    /// The side that is declared to send the message: the initiator for a
    /// client's message, the responder for any other.
    pub open spec fn declared_sender(&self) -> Direction {
        if self.client_sent() {
            Direction::Initiator
        } else {
            Direction::Responder
        }
    }

    /// The side that is declared to send the message.
    pub fn sender(&self) -> (side: Direction)
        ensures
            side == self.declared_sender(),
    {
        match self {
            Message::Init => Direction::Initiator,
            Message::RequestTxIds(..) => Direction::Responder,
            Message::ReplyTxIds(..) => Direction::Initiator,
            Message::RequestTxs(..) => Direction::Responder,
            Message::ReplyTxs(..) => Direction::Initiator,
            Message::Done => Direction::Initiator,
        }
    }

    /// The state that this message leads to from `current_state`, or `None`
    /// where the message is not allowed there.
    pub fn can_transition(&self, current_state: State) -> (next: Option<State>)
        ensures
            forall|end: State| next == Some(end) <==> current_state.allows(self, end),
    {
        match self {
            Message::Init => match current_state {
                State::Init => Some(State::Idle),
                _ => None,
            },
            Message::RequestTxIds(..) => match current_state {
                State::Idle => Some(State::TxIdsBlocking),
                _ => None,
            },
            Message::ReplyTxIds(..) => match current_state {
                State::TxIdsNonBlocking => Some(State::Idle),
                State::TxIdsBlocking => Some(State::Idle),
                _ => None,
            },
            Message::RequestTxs(..) => match current_state {
                State::Idle => Some(State::Txs),
                _ => None,
            },
            Message::ReplyTxs(..) => match current_state {
                State::Txs => Some(State::Idle),
                _ => None,
            },
            Message::Done => match current_state {
                State::TxIdsBlocking => Some(State::Done),
                _ => None,
            },
        }
    }
}

impl Protocol for State {
    type Message = Message;

    open spec fn allows(self, message: &Message, end: State) -> bool {
        ||| self is Init && message is Init && end is Idle
        ||| self is Idle && message is RequestTxIds && end is TxIdsBlocking
        ||| self is Idle && message is RequestTxs && end is Txs
        ||| self is Txs && message is ReplyTxs && end is Idle
        ||| self is TxIdsNonBlocking && message is ReplyTxIds && end is Idle
        ||| self is TxIdsBlocking && message is Done && end is Done
        ||| self is TxIdsBlocking && message is ReplyTxIds && end is Idle
    }

    open spec fn agency(self) -> Option<Direction> {
        match self {
            State::Init => Some(Direction::Initiator),
            State::Idle => Some(Direction::Responder),
            State::Txs => Some(Direction::Initiator),
            State::TxIdsBlocking => Some(Direction::Initiator),
            State::TxIdsNonBlocking => Some(Direction::Initiator),
            State::Done => None,
        }
    }

    open spec fn number() -> u16 {
        protocol_numbers::TX_SUBMISSION
    }

    open spec fn max_size() -> usize {
        8192
    }

    fn protocol_number() -> (id: Id) {
        Id::new(protocol_numbers::TX_SUBMISSION)
    }

    fn message_max_size() -> (size: usize) {
        8192
    }

    fn transition(self, message: &Message) -> (next: Option<State>) {
        message.can_transition(self)
    }

    fn direction(self) -> (side: Option<Direction>) {
        match self {
            State::Init => Some(Direction::Initiator),
            State::Idle => Some(Direction::Responder),
            State::Txs => Some(Direction::Initiator),
            State::TxIdsBlocking => Some(Direction::Initiator),
            State::TxIdsNonBlocking => Some(Direction::Initiator),
            State::Done => None,
        }
    }
}

/// What the server may answer to `Init`.
#[derive(Clone, Debug)]
pub enum InitRet {
    RequestTxIds(bool, u16, u16),
    RequestTxs(Vec<TxId>),
}

impl InitRet {
    /// The message that this is.
    pub open spec fn message(self) -> Message {
        match self {
            InitRet::RequestTxIds(param0, param1, param2) => Message::RequestTxIds(param0, param1, param2),
            InitRet::RequestTxs(param0) => Message::RequestTxs(param0),
        }
    }
}

impl From<InitRet> for Message {
    fn from(r: InitRet) -> (m: Message) {
        match r {
            InitRet::RequestTxIds(param0, param1, param2) => Message::RequestTxIds(param0, param1, param2),
            InitRet::RequestTxs(param0) => Message::RequestTxs(param0),
        }
    }
}

impl vstd::std_specs::convert::FromSpecImpl<InitRet> for Message {
    open spec fn obeys_from_spec() -> bool {
        true
    }

    open spec fn from_spec(r: InitRet) -> Message {
        r.message()
    }
}

/// Picks out the messages that may answer `Init`: those that are allowed
/// in state `Idle`.
pub fn client_init_ret(message: Message) -> (r: Option<InitRet>)
    ensures
        r is Some <==> exists|end: State| State::Idle.allows(&message, end),
        r matches Some(picked) ==> picked.message() == message,
{
    let ghost received = message;
    match message {
        Message::RequestTxIds(param0, param1, param2) => {
            assert(State::Idle.allows(&received, State::TxIdsBlocking));
            Some(InitRet::RequestTxIds(param0, param1, param2))
        },
        Message::RequestTxs(param0) => {
            assert(State::Idle.allows(&received, State::Txs));
            Some(InitRet::RequestTxs(param0))
        },
        _ => None,
    }
}

/// What the server may answer to `ReplyTxIds`.
#[derive(Clone, Debug)]
pub enum ReplyTxIdsRet {
    RequestTxIds(bool, u16, u16),
    RequestTxs(Vec<TxId>),
}

impl ReplyTxIdsRet {
    /// The message that this is.
    pub open spec fn message(self) -> Message {
        match self {
            ReplyTxIdsRet::RequestTxIds(param0, param1, param2) => Message::RequestTxIds(param0, param1, param2),
            ReplyTxIdsRet::RequestTxs(param0) => Message::RequestTxs(param0),
        }
    }
}

impl From<ReplyTxIdsRet> for Message {
    fn from(r: ReplyTxIdsRet) -> (m: Message) {
        match r {
            ReplyTxIdsRet::RequestTxIds(param0, param1, param2) => Message::RequestTxIds(param0, param1, param2),
            ReplyTxIdsRet::RequestTxs(param0) => Message::RequestTxs(param0),
        }
    }
}

impl vstd::std_specs::convert::FromSpecImpl<ReplyTxIdsRet> for Message {
    open spec fn obeys_from_spec() -> bool {
        true
    }

    open spec fn from_spec(r: ReplyTxIdsRet) -> Message {
        r.message()
    }
}

/// Picks out the messages that may answer `ReplyTxIds`: those that are allowed
/// in state `Idle`.
pub fn client_reply_tx_ids_ret(message: Message) -> (r: Option<ReplyTxIdsRet>)
    ensures
        r is Some <==> exists|end: State| State::Idle.allows(&message, end),
        r matches Some(picked) ==> picked.message() == message,
{
    let ghost received = message;
    match message {
        Message::RequestTxIds(param0, param1, param2) => {
            assert(State::Idle.allows(&received, State::TxIdsBlocking));
            Some(ReplyTxIdsRet::RequestTxIds(param0, param1, param2))
        },
        Message::RequestTxs(param0) => {
            assert(State::Idle.allows(&received, State::Txs));
            Some(ReplyTxIdsRet::RequestTxs(param0))
        },
        _ => None,
    }
}

/// What the server may answer to `ReplyTxs`.
#[derive(Clone, Debug)]
pub enum ReplyTxsRet {
    RequestTxIds(bool, u16, u16),
    RequestTxs(Vec<TxId>),
}

impl ReplyTxsRet {
    /// The message that this is.
    pub open spec fn message(self) -> Message {
        match self {
            ReplyTxsRet::RequestTxIds(param0, param1, param2) => Message::RequestTxIds(param0, param1, param2),
            ReplyTxsRet::RequestTxs(param0) => Message::RequestTxs(param0),
        }
    }
}

impl From<ReplyTxsRet> for Message {
    fn from(r: ReplyTxsRet) -> (m: Message) {
        match r {
            ReplyTxsRet::RequestTxIds(param0, param1, param2) => Message::RequestTxIds(param0, param1, param2),
            ReplyTxsRet::RequestTxs(param0) => Message::RequestTxs(param0),
        }
    }
}

impl vstd::std_specs::convert::FromSpecImpl<ReplyTxsRet> for Message {
    open spec fn obeys_from_spec() -> bool {
        true
    }

    open spec fn from_spec(r: ReplyTxsRet) -> Message {
        r.message()
    }
}

/// Picks out the messages that may answer `ReplyTxs`: those that are allowed
/// in state `Idle`.
pub fn client_reply_txs_ret(message: Message) -> (r: Option<ReplyTxsRet>)
    ensures
        r is Some <==> exists|end: State| State::Idle.allows(&message, end),
        r matches Some(picked) ==> picked.message() == message,
{
    let ghost received = message;
    match message {
        Message::RequestTxIds(param0, param1, param2) => {
            assert(State::Idle.allows(&received, State::TxIdsBlocking));
            Some(ReplyTxsRet::RequestTxIds(param0, param1, param2))
        },
        Message::RequestTxs(param0) => {
            assert(State::Idle.allows(&received, State::Txs));
            Some(ReplyTxsRet::RequestTxs(param0))
        },
        _ => None,
    }
}

/// Picks out the one message that the client may send in state `Init`,
/// `Init`, and gives what it carries.
pub fn server_init_message_filter(message: Message) -> (r: Option<()>)
    ensures
        r is Some <==> exists|end: State| State::Init.allows(&message, end),
        r is Some ==> message is Init,
{
    let ghost received = message;
    match message {
        Message::Init => {
            assert(State::Init.allows(&received, State::Idle));
            Some(())
        },
        _ => None,
    }
}

/// Picks out the one message that the client may send in state `TxIdsNonBlocking`,
/// `ReplyTxIds`, and gives what it carries.
pub fn server_tx_ids_non_blocking_message_filter(message: Message) -> (r: Option<Vec<TxIdAndSize>>)
    ensures
        r is Some <==> exists|end: State| State::TxIdsNonBlocking.allows(&message, end),
        r matches Some(carried) ==> message == Message::ReplyTxIds(carried),
{
    let ghost received = message;
    match message {
        Message::ReplyTxIds(param0) => {
            assert(State::TxIdsNonBlocking.allows(&received, State::Idle));
            Some(param0)
        },
        _ => None,
    }
}

/// What the client may send in state `TxIdsBlocking`.
#[derive(Clone, Debug)]
pub enum OnTxIdsBlockingMsg {
    Done,
    ReplyTxIds(Vec<TxIdAndSize>),
}

impl OnTxIdsBlockingMsg {
    /// The message that this is.
    pub open spec fn message(self) -> Message {
        match self {
            OnTxIdsBlockingMsg::Done => Message::Done,
            OnTxIdsBlockingMsg::ReplyTxIds(param0) => Message::ReplyTxIds(param0),
        }
    }
}

/// Picks out the messages that the client may send in state `TxIdsBlocking`.
pub fn server_tx_ids_blocking_message_filter(message: Message) -> (r: Option<OnTxIdsBlockingMsg>)
    ensures
        r is Some <==> exists|end: State| State::TxIdsBlocking.allows(&message, end),
        r matches Some(picked) ==> picked.message() == message,
{
    let ghost received = message;
    match message {
        Message::Done => {
            assert(State::TxIdsBlocking.allows(&received, State::Done));
            Some(OnTxIdsBlockingMsg::Done)
        },
        Message::ReplyTxIds(param0) => {
            assert(State::TxIdsBlocking.allows(&received, State::Idle));
            Some(OnTxIdsBlockingMsg::ReplyTxIds(param0))
        },
        _ => None,
    }
}

/// Picks out the one message that the client may send in state `Txs`,
/// `ReplyTxs`, and gives what it carries.
pub fn server_txs_message_filter(message: Message) -> (r: Option<Vec<Tx>>)
    ensures
        r is Some <==> exists|end: State| State::Txs.allows(&message, end),
        r matches Some(carried) ==> message == Message::ReplyTxs(carried),
{
    let ghost received = message;
    match message {
        Message::ReplyTxs(param0) => {
            assert(State::Txs.allows(&received, State::Idle));
            Some(param0)
        },
        _ => None,
    }
}

/// A message is allowed in at most one way: the state it leads to is
/// determined by the state it is sent in.
pub proof fn lemma_one_end(state: State, message: Message, end1: State, end2: State)
    requires
        state.allows(&message, end1),
        state.allows(&message, end2),
    ensures
        end1 == end2,
{
}

/// Nobody may send in a state exactly when no message is allowed in it:
/// such a state is never left.
pub proof fn lemma_final_states(state: State)
    ensures
        state.agency() is None <==> forall|message: Message, end: State|
            !state.allows(&message, end),
{
    match state {
        State::Init => {
            let witness = Message::Init;
            assert(state.allows(&witness, State::Idle));
        },
        State::Idle => {
            let witness = Message::RequestTxIds(arbitrary(), arbitrary(), arbitrary());
            assert(state.allows(&witness, State::TxIdsBlocking));
        },
        State::Txs => {
            let witness = Message::ReplyTxs(arbitrary());
            assert(state.allows(&witness, State::Idle));
        },
        State::TxIdsBlocking => {
            let witness = Message::Done;
            assert(state.allows(&witness, State::Done));
        },
        State::TxIdsNonBlocking => {
            let witness = Message::ReplyTxIds(arbitrary());
            assert(state.allows(&witness, State::Idle));
        },
        State::Done => {},
    }
}

/// Whoever sends a message that is allowed has the right to speak: the
/// side that may send in a state is the side declared to send the
/// message.
pub proof fn lemma_sender_has_agency(state: State, message: Message, end: State)
    requires
        state.allows(&message, end),
    ensures
        state.agency() == Some(message.declared_sender()),
{
}

impl State {
    /// The place of the state in the list of the states.
    pub open spec fn place(self) -> usize {
        match self {
            State::Init => 0,
            State::Idle => 1,
            State::Txs => 2,
            State::TxIdsBlocking => 3,
            State::TxIdsNonBlocking => 4,
            State::Done => 5,
        }
    }

    /// The place of the state in the list of the states.
    pub fn index(self) -> (i: usize)
        ensures
            i == self.place(),
    {
        match self {
            State::Init => 0,
            State::Idle => 1,
            State::Txs => 2,
            State::TxIdsBlocking => 3,
            State::TxIdsNonBlocking => 4,
            State::Done => 5,
        }
    }
}

impl Message {
    /// The place of the message in the list of the messages.
    pub open spec fn place(&self) -> usize {
        match self {
            Message::Init => 0,
            Message::RequestTxIds(..) => 1,
            Message::ReplyTxIds(..) => 2,
            Message::RequestTxs(..) => 3,
            Message::ReplyTxs(..) => 4,
            Message::Done => 5,
        }
    }

    /// The place of the message in the list of the messages.
    pub fn index(&self) -> (i: usize)
        ensures
            i == self.place(),
    {
        match self {
            Message::Init => 0,
            Message::RequestTxIds(..) => 1,
            Message::ReplyTxIds(..) => 2,
            Message::RequestTxs(..) => 3,
            Message::ReplyTxs(..) => 4,
            Message::Done => 5,
        }
    }
}

/// The transitions of the protocol as they are declared, each state and
/// message by its place.
pub open spec fn declared() -> Seq<Transition> {
    seq![
        Transition { start: 0, message: 0, end: 1 },
        Transition { start: 1, message: 1, end: 3 },
        Transition { start: 1, message: 3, end: 2 },
        Transition { start: 2, message: 4, end: 1 },
        Transition { start: 4, message: 2, end: 1 },
        Transition { start: 3, message: 5, end: 5 },
        Transition { start: 3, message: 2, end: 1 },
    ]
}

/// The places of the messages that the client is declared to send.
pub open spec fn declared_clients() -> Seq<usize> {
    seq![0usize, 2usize, 4usize, 5usize]
}

/// The declaration of the protocol, as data.
pub fn declaration() -> (r: (Context, Vec<usize>))
    ensures
        r.0@ == declared(),
        r.1@ == declared_clients(),
{
    let mut transitions: Vec<Transition> = Vec::new();
    transitions.push(Transition { start: 0, message: 0, end: 1 });
    transitions.push(Transition { start: 1, message: 1, end: 3 });
    transitions.push(Transition { start: 1, message: 3, end: 2 });
    transitions.push(Transition { start: 2, message: 4, end: 1 });
    transitions.push(Transition { start: 4, message: 2, end: 1 });
    transitions.push(Transition { start: 3, message: 5, end: 5 });
    transitions.push(Transition { start: 3, message: 2, end: 1 });
    let mut clients: Vec<usize> = Vec::new();
    clients.push(0);
    clients.push(2);
    clients.push(4);
    clients.push(5);
    assert(transitions@ =~= declared());
    assert(clients@ =~= declared_clients());
    (Context::new(transitions), clients)
}

/// The relation is the declaration: a message is allowed in a state and
/// leads to another exactly when the transition function derived from the
/// declaration says so.
pub proof fn lemma_relation_is_declared(state: State, message: Message, end: State)
    ensures
        state.allows(&message, end) <==> next_state(declared(), state.place(), message.place())
            == Some(end.place()),
{
    reveal_with_fuel(next_state, 8);
    let d = declared();
    assert(d.skip(1) =~= d.skip(0).skip(1));
    assert(d.skip(2) =~= d.skip(1).skip(1));
    assert(d.skip(3) =~= d.skip(2).skip(1));
    assert(d.skip(4) =~= d.skip(3).skip(1));
    assert(d.skip(5) =~= d.skip(4).skip(1));
    assert(d.skip(6) =~= d.skip(5).skip(1));
    assert(d.skip(7) =~= d.skip(6).skip(1));
    assert(d.skip(0) =~= d);
}

/// A message is written as an array: the number of its kind, then what it carries.
impl CborCodec for Message {
    open spec fn encodes(self, tree: Cbor) -> bool {
        tree matches Cbor::Array(items) && match self {
            Message::Init => items@.len() == 1 && is_u64(0, items@[0]),
            Message::RequestTxIds(f0, f1, f2) => items@.len() == 4 && is_u64(1, items@[0]) && f0.encodes(items@[1]) && f1.encodes(items@[2]) && f2.encodes(items@[3]),
            Message::ReplyTxIds(f0) => items@.len() == 2 && is_u64(2, items@[0]) && is_array_of(f0@, items@[1]),
            Message::RequestTxs(f0) => items@.len() == 2 && is_u64(3, items@[0]) && is_array_of(f0@, items@[1]),
            Message::ReplyTxs(f0) => items@.len() == 2 && is_u64(4, items@[0]) && is_array_of(f0@, items@[1]),
            Message::Done => items@.len() == 1 && is_u64(5, items@[0]),
        }
    }

    fn to_cbor(&self) -> (tree: Cbor) {
        let mut items: Vec<Cbor> = Vec::new();
        match self {
            Message::Init => {
                items.push(from_u64(0));
            },
            Message::RequestTxIds(f0, f1, f2) => {
                items.push(from_u64(1));
                items.push(f0.to_cbor());
                items.push(f1.to_cbor());
                items.push(f2.to_cbor());
            },
            Message::ReplyTxIds(f0) => {
                items.push(from_u64(2));
                items.push(array_from(f0));
            },
            Message::RequestTxs(f0) => {
                items.push(from_u64(3));
                items.push(array_from(f0));
            },
            Message::ReplyTxs(f0) => {
                items.push(from_u64(4));
                items.push(array_from(f0));
            },
            Message::Done => {
                items.push(from_u64(5));
            },
        }
        Cbor::Array(items)
    }

    fn from_cbor(tree: &Cbor) -> (r: Result<Message, Undecodable>) {
        let items = match items_of(tree) {
            Ok(items) => items,
            Err(e) => {
                assert forall|value: Message| !value.encodes(*tree) by {}
                return Err(e);
            },
        };
        if items.len() == 0 {
            assert forall|value: Message| !value.encodes(*tree) by {}
            return Err(Undecodable);
        }
        let tag = match to_u64(&items[0]) {
            Ok(tag) => tag,
            Err(e) => {
                assert forall|value: Message| !value.encodes(*tree) by {}
                return Err(e);
            },
        };
        if tag == 0 {
            if items.len() != 1 {
                assert forall|value: Message| !value.encodes(*tree) by {}
                return Err(Undecodable);
            }
            let read = Message::Init;
            assert(read.encodes(*tree));
            Ok(read)
        } else if tag == 1 {
            if items.len() != 4 {
                assert forall|value: Message| !value.encodes(*tree) by {}
                return Err(Undecodable);
            }
            let f0 = match <bool as CborCodec>::from_cbor(&items[1]) {
                Ok(value) => value,
                Err(e) => {
                    assert forall|value: Message| !value.encodes(*tree) by {}
                    return Err(e);
                },
            };
            let f1 = match <u16 as CborCodec>::from_cbor(&items[2]) {
                Ok(value) => value,
                Err(e) => {
                    assert forall|value: Message| !value.encodes(*tree) by {}
                    return Err(e);
                },
            };
            let f2 = match <u16 as CborCodec>::from_cbor(&items[3]) {
                Ok(value) => value,
                Err(e) => {
                    assert forall|value: Message| !value.encodes(*tree) by {}
                    return Err(e);
                },
            };
            let read = Message::RequestTxIds(f0, f1, f2);
            assert(read.encodes(*tree));
            Ok(read)
        } else if tag == 2 {
            if items.len() != 2 {
                assert forall|value: Message| !value.encodes(*tree) by {}
                return Err(Undecodable);
            }
            let f0 = match array_to::<TxIdAndSize>(&items[1]) {
                Ok(value) => value,
                Err(e) => {
                    assert forall|value: Message| !value.encodes(*tree) by {}
                    return Err(e);
                },
            };
            let read = Message::ReplyTxIds(f0);
            assert(read.encodes(*tree));
            Ok(read)
        } else if tag == 3 {
            if items.len() != 2 {
                assert forall|value: Message| !value.encodes(*tree) by {}
                return Err(Undecodable);
            }
            let f0 = match array_to::<TxId>(&items[1]) {
                Ok(value) => value,
                Err(e) => {
                    assert forall|value: Message| !value.encodes(*tree) by {}
                    return Err(e);
                },
            };
            let read = Message::RequestTxs(f0);
            assert(read.encodes(*tree));
            Ok(read)
        } else if tag == 4 {
            if items.len() != 2 {
                assert forall|value: Message| !value.encodes(*tree) by {}
                return Err(Undecodable);
            }
            let f0 = match array_to::<Tx>(&items[1]) {
                Ok(value) => value,
                Err(e) => {
                    assert forall|value: Message| !value.encodes(*tree) by {}
                    return Err(e);
                },
            };
            let read = Message::ReplyTxs(f0);
            assert(read.encodes(*tree));
            Ok(read)
        } else if tag == 5 {
            if items.len() != 1 {
                assert forall|value: Message| !value.encodes(*tree) by {}
                return Err(Undecodable);
            }
            let read = Message::Done;
            assert(read.encodes(*tree));
            Ok(read)
        } else {
            assert forall|value: Message| !value.encodes(*tree) by {}
            Err(Undecodable)
        }
    }
}
} // verus!
