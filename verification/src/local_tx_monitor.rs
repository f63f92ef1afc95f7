//! Local transaction monitor: a client looks at the transactions its node
//! holds pending.

use crate::cbor::{entries_of, from_u64, is_u64, items_of, to_u64, Cbor, CborCodec, Undecodable};
use crate::frame::{Direction, Id};
use crate::protocol::Protocol;
use crate::protocol_numbers;
use crate::transitions::{next_state, Context, Transition};
use vstd::prelude::*;
use crate::tx_submission::{Tx, TxId};

verus! {

/// Three sizes of the pool of pending transactions.
#[derive(Clone, Debug)]
pub struct Sizes {
    pub size1: u32,
    pub size2: u32,
    pub size3: u32,
}

/// Measures of the pool of pending transactions: a pair of numbers for each name.
#[derive(Clone, Debug)]
pub struct Measures(pub Vec<(String, (u64, u64))>);
/// Written as an array of the three sizes.
impl CborCodec for Sizes {
    open spec fn encodes(self, tree: Cbor) -> bool {
        tree matches Cbor::Array(items) && items@.len() == 3 && self.size1.encodes(items@[0]) && self.size2.encodes(items@[1]) && self.size3.encodes(items@[2])
    }

    fn to_cbor(&self) -> (tree: Cbor) {
        let mut items: Vec<Cbor> = Vec::new();
        items.push(self.size1.to_cbor());
        items.push(self.size2.to_cbor());
        items.push(self.size3.to_cbor());
        Cbor::Array(items)
    }

    fn from_cbor(tree: &Cbor) -> (r: Result<Sizes, Undecodable>) {
        let items = match items_of(tree) {
            Ok(items) => items,
            Err(e) => {
                assert forall|value: Sizes| !value.encodes(*tree) by {}
                return Err(e);
            },
        };
        if items.len() != 3 {
            assert forall|value: Sizes| !value.encodes(*tree) by {}
            return Err(Undecodable);
        }
        let f0 = match <u32 as CborCodec>::from_cbor(&items[0]) {
            Ok(value) => value,
            Err(e) => {
                assert forall|value: Sizes| !value.encodes(*tree) by {}
                return Err(e);
            },
        };
        let f1 = match <u32 as CborCodec>::from_cbor(&items[1]) {
            Ok(value) => value,
            Err(e) => {
                assert forall|value: Sizes| !value.encodes(*tree) by {}
                return Err(e);
            },
        };
        let f2 = match <u32 as CborCodec>::from_cbor(&items[2]) {
            Ok(value) => value,
            Err(e) => {
                assert forall|value: Sizes| !value.encodes(*tree) by {}
                return Err(e);
            },
        };
        let read = Sizes { size1: f0, size2: f1, size3: f2 };
        assert(read.encodes(*tree));
        Ok(read)
    }
}

/// Measures are written as a map: for each name, the array of its two numbers.
impl CborCodec for Measures {
    open spec fn encodes(self, tree: Cbor) -> bool {
        tree matches Cbor::Entries(entries) && entries@.len() == self.0@.len() && forall|i: int|
            0 <= i < entries@.len() ==> (#[trigger] self.0@[i]).0.encodes(entries@[i].0)
                && is_pair(self.0@[i].1, entries@[i].1)
    }

    fn to_cbor(&self) -> (tree: Cbor) {
        let mut entries: Vec<(Cbor, Cbor)> = Vec::new();
        let mut i: usize = 0;
        while i < self.0.len()
            invariant
                i <= self.0@.len(),
                entries@.len() == i,
                forall|j: int|
                    0 <= j < i ==> (#[trigger] self.0@[j]).0.encodes(entries@[j].0) && is_pair(
                        self.0@[j].1,
                        entries@[j].1,
                    ),
            decreases self.0@.len() - i,
        {
            let key = self.0[i].0.to_cbor();
            let mut pair: Vec<Cbor> = Vec::new();
            pair.push(from_u64(self.0[i].1.0));
            pair.push(from_u64(self.0[i].1.1));
            entries.push((key, Cbor::Array(pair)));
            i += 1;
        }
        Cbor::Entries(entries)
    }

    fn from_cbor(tree: &Cbor) -> (r: Result<Measures, Undecodable>) {
        let entries = match entries_of(tree) {
            Ok(entries) => entries,
            Err(e) => {
                assert forall|value: Measures| !value.encodes(*tree) by {}
                return Err(e);
            },
        };
        let mut out: Vec<(String, (u64, u64))> = Vec::new();
        let mut i: usize = 0;
        while i < entries.len()
            invariant
                i <= entries@.len(),
                out@.len() == i,
                *tree == Cbor::Entries(*entries),
                forall|j: int|
                    0 <= j < i ==> (#[trigger] out@[j]).0.encodes(entries@[j].0) && is_pair(
                        out@[j].1,
                        entries@[j].1,
                    ),
            decreases entries@.len() - i,
        {
            let key = match String::from_cbor(&entries[i].0) {
                Ok(value) => value,
                Err(e) => {
                    assert forall|other: Measures| !other.encodes(*tree) by {
                        if other.encodes(*tree) {
                            assert(other.0@[i as int].0.encodes(entries@[i as int].0));
                        }
                    }
                    return Err(e);
                },
            };
            let value = match pair_of(&entries[i].1) {
                Ok(value) => value,
                Err(e) => {
                    assert forall|other: Measures| !other.encodes(*tree) by {
                        if other.encodes(*tree) {
                            assert(other.0@[i as int].0.encodes(entries@[i as int].0));
                            assert(is_pair(other.0@[i as int].1, entries@[i as int].1));
                        }
                    }
                    return Err(e);
                },
            };
            out.push((key, value));
            i += 1;
        }
        let measures = Measures(out);
        assert(measures.encodes(*tree));
        Ok(measures)
    }
}

/// Whether `tree` is the array of the two numbers of `pair`.
pub open spec fn is_pair(pair: (u64, u64), tree: Cbor) -> bool {
    tree matches Cbor::Array(items) && items@.len() == 2 && is_u64(pair.0, items@[0]) && is_u64(
        pair.1,
        items@[1],
    )
}

/// The two numbers that `tree` is the array of, if it is one.
fn pair_of(tree: &Cbor) -> (r: Result<(u64, u64), Undecodable>)
    ensures
        r matches Ok(pair) ==> is_pair(pair, *tree),
        r is Err <==> forall|pair: (u64, u64)| !is_pair(pair, *tree),
{
    let items = match items_of(tree) {
        Ok(items) => items,
        Err(e) => {
            assert forall|pair: (u64, u64)| !is_pair(pair, *tree) by {}
            return Err(e);
        },
    };
    if items.len() != 2 {
        assert forall|pair: (u64, u64)| !is_pair(pair, *tree) by {}
        return Err(Undecodable);
    }
    let a = match to_u64(&items[0]) {
        Ok(value) => value,
        Err(e) => {
            assert forall|pair: (u64, u64)| !is_pair(pair, *tree) by {}
            return Err(e);
        },
    };
    let b = match to_u64(&items[1]) {
        Ok(value) => value,
        Err(e) => {
            assert forall|pair: (u64, u64)| !is_pair(pair, *tree) by {}
            return Err(e);
        },
    };
    assert(is_pair((a, b), *tree));
    Ok((a, b))
}

/// The states of the local transaction monitor protocol.
#[derive(Clone, Copy, Debug, PartialEq, Eq, Structural)]
pub enum State {
    /// The client may acquire a snapshot or end the conversation.
    Idle,
    /// The node takes the snapshot.
    Acquiring,
    /// The client may ask about the snapshot.
    Acquired,
    /// The node looks for the next transaction.
    BusyNextTx,
    /// The node looks for a transaction.
    BusyHasTx,
    /// The node measures the sizes.
    BusyGetSizes,
    /// The node takes the measures.
    BusyGetMeasures,
    /// The conversation is over.
    Done,
}

impl Default for State {
    /// The state in which every conversation begins.
    fn default() -> (s: State)
        ensures
            s == State::Idle,
    {
        State::Idle
    }
}

/// The messages of the local transaction monitor protocol.
#[derive(Clone, Debug)]
pub enum Message {
    /// Ends the conversation.
    Done,
    /// Asks for a snapshot of the pool.
    Acquire,
    /// The snapshot is held; with its slot.
    Acquired(u64),
    /// Lets the snapshot go.
    Release,
    /// Asks for the next transaction of the snapshot.
    NextTx,
    /// The next transaction.
    ReplyNextTx(Tx),
    /// Asks whether the snapshot holds this transaction.
    HasTx(TxId),
    /// Whether it does.
    ReplyHasTx(bool),
    /// Asks for the sizes of the pool.
    GetSizes,
    /// The sizes.
    ReplyGetSizes(Sizes),
    /// Asks for the measures of the pool.
    GetMeasures,
    /// The measures, with the number of transactions.
    ReplyGetMeasures(u32, Measures),
}

impl Message {
    /// Whether the message is declared as one that the client sends.
    pub open spec fn client_sent(&self) -> bool {
        self is Done || self is Acquire || self is Release || self is NextTx || self is HasTx || self is GetSizes || self is GetMeasures
    }

    /// The side that is declared to send the message: the initiator for a
    /// client's message, the responder for any other.
    pub open spec fn declared_sender(&self) -> Direction {
        if self.client_sent() {
            Direction::Initiator
        } else {
            Direction::Responder
        }
    }

    /// The side that is declared to send the message.
    pub fn sender(&self) -> (side: Direction)
        ensures
            side == self.declared_sender(),
    {
        match self {
            Message::Done => Direction::Initiator,
            Message::Acquire => Direction::Initiator,
            Message::Acquired(..) => Direction::Responder,
            Message::Release => Direction::Initiator,
            Message::NextTx => Direction::Initiator,
            Message::ReplyNextTx(..) => Direction::Responder,
            Message::HasTx(..) => Direction::Initiator,
            Message::ReplyHasTx(..) => Direction::Responder,
            Message::GetSizes => Direction::Initiator,
            Message::ReplyGetSizes(..) => Direction::Responder,
            Message::GetMeasures => Direction::Initiator,
            Message::ReplyGetMeasures(..) => Direction::Responder,
        }
    }

    /// The state that this message leads to from `current_state`, or `None`
    /// where the message is not allowed there.
    pub fn can_transition(&self, current_state: State) -> (next: Option<State>)
        ensures
            forall|end: State| next == Some(end) <==> current_state.allows(self, end),
    {
        match self {
            Message::Done => match current_state {
                State::Idle => Some(State::Done),
                _ => None,
            },
            Message::Acquire => match current_state {
                State::Idle => Some(State::Acquiring),
                _ => None,
            },
            Message::Acquired(..) => match current_state {
                State::Acquiring => Some(State::Acquired),
                _ => None,
            },
            Message::Release => match current_state {
                State::Acquired => Some(State::Idle),
                _ => None,
            },
            Message::NextTx => match current_state {
                State::Acquired => Some(State::BusyNextTx),
                _ => None,
            },
            Message::ReplyNextTx(..) => match current_state {
                State::BusyNextTx => Some(State::Acquired),
                _ => None,
            },
            Message::HasTx(..) => match current_state {
                State::Acquired => Some(State::BusyHasTx),
                _ => None,
            },
            Message::ReplyHasTx(..) => match current_state {
                State::BusyHasTx => Some(State::Acquired),
                _ => None,
            },
            Message::GetSizes => match current_state {
                State::Acquired => Some(State::BusyGetSizes),
                _ => None,
            },
            Message::ReplyGetSizes(..) => match current_state {
                State::BusyGetSizes => Some(State::Acquired),
                _ => None,
            },
            Message::GetMeasures => match current_state {
                State::Acquired => Some(State::BusyGetMeasures),
                _ => None,
            },
            Message::ReplyGetMeasures(..) => match current_state {
                State::BusyGetMeasures => Some(State::Acquired),
                _ => None,
            },
        }
    }
}

impl Protocol for State {
    type Message = Message;

    open spec fn allows(self, message: &Message, end: State) -> bool {
        ||| self is Idle && message is Acquire && end is Acquiring
        ||| self is Acquiring && message is Acquired && end is Acquired
        ||| self is Acquired && message is Release && end is Idle
        ||| self is Acquired && message is NextTx && end is BusyNextTx
        ||| self is BusyNextTx && message is ReplyNextTx && end is Acquired
        ||| self is Acquired && message is HasTx && end is BusyHasTx
        ||| self is BusyHasTx && message is ReplyHasTx && end is Acquired
        ||| self is Acquired && message is GetSizes && end is BusyGetSizes
        ||| self is BusyGetSizes && message is ReplyGetSizes && end is Acquired
        ||| self is Acquired && message is GetMeasures && end is BusyGetMeasures
        ||| self is BusyGetMeasures && message is ReplyGetMeasures && end is Acquired
        ||| self is Idle && message is Done && end is Done
    }

    open spec fn agency(self) -> Option<Direction> {
        match self {
            State::Idle => Some(Direction::Initiator),
            State::Acquiring => Some(Direction::Responder),
            State::Acquired => Some(Direction::Initiator),
            State::BusyNextTx => Some(Direction::Responder),
            State::BusyHasTx => Some(Direction::Responder),
            State::BusyGetSizes => Some(Direction::Responder),
            State::BusyGetMeasures => Some(Direction::Responder),
            State::Done => None,
        }
    }

    open spec fn number() -> u16 {
        protocol_numbers::LOCAL_TX_MONITOR
    }

    open spec fn max_size() -> usize {
        8192
    }

    fn protocol_number() -> (id: Id) {
        Id::new(protocol_numbers::LOCAL_TX_MONITOR)
    }

    fn message_max_size() -> (size: usize) {
        8192
    }

    fn transition(self, message: &Message) -> (next: Option<State>) {
        message.can_transition(self)
    }

    fn direction(self) -> (side: Option<Direction>) {
        match self {
            State::Idle => Some(Direction::Initiator),
            State::Acquiring => Some(Direction::Responder),
            State::Acquired => Some(Direction::Initiator),
            State::BusyNextTx => Some(Direction::Responder),
            State::BusyHasTx => Some(Direction::Responder),
            State::BusyGetSizes => Some(Direction::Responder),
            State::BusyGetMeasures => Some(Direction::Responder),
            State::Done => None,
        }
    }
}

/// Picks out the one message that may answer `Acquire`, `Acquired`, and gives
/// what it carries.
pub fn client_acquire_ret(message: Message) -> (r: Option<u64>)
    ensures
        r is Some <==> exists|end: State| State::Acquiring.allows(&message, end),
        r matches Some(carried) ==> message == Message::Acquired(carried),
{
    let ghost received = message;
    match message {
        Message::Acquired(param0) => {
            assert(State::Acquiring.allows(&received, State::Acquired));
            Some(param0)
        },
        _ => None,
    }
}

/// What the server may answer to `Release`.
#[derive(Clone, Debug)]
pub enum ReleaseRet {
    Acquire,
    Done,
}

impl ReleaseRet {
    /// The message that this is.
    pub open spec fn message(self) -> Message {
        match self {
            ReleaseRet::Acquire => Message::Acquire,
            ReleaseRet::Done => Message::Done,
        }
    }
}

impl From<ReleaseRet> for Message {
    fn from(r: ReleaseRet) -> (m: Message) {
        match r {
            ReleaseRet::Acquire => Message::Acquire,
            ReleaseRet::Done => Message::Done,
        }
    }
}

impl vstd::std_specs::convert::FromSpecImpl<ReleaseRet> for Message {
    open spec fn obeys_from_spec() -> bool {
        true
    }

    open spec fn from_spec(r: ReleaseRet) -> Message {
        r.message()
    }
}

/// Picks out the messages that may answer `Release`: those that are allowed
/// in state `Idle`.
pub fn client_release_ret(message: Message) -> (r: Option<ReleaseRet>)
    ensures
        r is Some <==> exists|end: State| State::Idle.allows(&message, end),
        r matches Some(picked) ==> picked.message() == message,
{
    let ghost received = message;
    match message {
        Message::Acquire => {
            assert(State::Idle.allows(&received, State::Acquiring));
            Some(ReleaseRet::Acquire)
        },
        Message::Done => {
            assert(State::Idle.allows(&received, State::Done));
            Some(ReleaseRet::Done)
        },
        _ => None,
    }
}

/// Picks out the one message that may answer `NextTx`, `ReplyNextTx`, and gives
/// what it carries.
pub fn client_next_tx_ret(message: Message) -> (r: Option<Tx>)
    ensures
        r is Some <==> exists|end: State| State::BusyNextTx.allows(&message, end),
        r matches Some(carried) ==> message == Message::ReplyNextTx(carried),
{
    let ghost received = message;
    match message {
        Message::ReplyNextTx(param0) => {
            assert(State::BusyNextTx.allows(&received, State::Acquired));
            Some(param0)
        },
        _ => None,
    }
}

/// Picks out the one message that may answer `HasTx`, `ReplyHasTx`, and gives
/// what it carries.
pub fn client_has_tx_ret(message: Message) -> (r: Option<bool>)
    ensures
        r is Some <==> exists|end: State| State::BusyHasTx.allows(&message, end),
        r matches Some(carried) ==> message == Message::ReplyHasTx(carried),
{
    let ghost received = message;
    match message {
        Message::ReplyHasTx(param0) => {
            assert(State::BusyHasTx.allows(&received, State::Acquired));
            Some(param0)
        },
        _ => None,
    }
}

/// Picks out the one message that may answer `GetSizes`, `ReplyGetSizes`, and gives
/// what it carries.
pub fn client_get_sizes_ret(message: Message) -> (r: Option<Sizes>)
    ensures
        r is Some <==> exists|end: State| State::BusyGetSizes.allows(&message, end),
        r matches Some(carried) ==> message == Message::ReplyGetSizes(carried),
{
    let ghost received = message;
    match message {
        Message::ReplyGetSizes(param0) => {
            assert(State::BusyGetSizes.allows(&received, State::Acquired));
            Some(param0)
        },
        _ => None,
    }
}

/// Picks out the one message that may answer `GetMeasures`, `ReplyGetMeasures`, and gives
/// what it carries.
pub fn client_get_measures_ret(message: Message) -> (r: Option<(u32, Measures)>)
    ensures
        r is Some <==> exists|end: State| State::BusyGetMeasures.allows(&message, end),
        r matches Some(carried) ==> message == Message::ReplyGetMeasures(carried.0, carried.1),
{
    let ghost received = message;
    match message {
        Message::ReplyGetMeasures(param0, param1) => {
            assert(State::BusyGetMeasures.allows(&received, State::Acquired));
            Some((param0, param1))
        },
        _ => None,
    }
}

/// What the client may send in state `Idle`.
#[derive(Clone, Debug)]
pub enum OnIdleMsg {
    Acquire,
    Done,
}

impl OnIdleMsg {
    /// The message that this is.
    pub open spec fn message(self) -> Message {
        match self {
            OnIdleMsg::Acquire => Message::Acquire,
            OnIdleMsg::Done => Message::Done,
        }
    }
}

/// Picks out the messages that the client may send in state `Idle`.
pub fn server_idle_message_filter(message: Message) -> (r: Option<OnIdleMsg>)
    ensures
        r is Some <==> exists|end: State| State::Idle.allows(&message, end),
        r matches Some(picked) ==> picked.message() == message,
{
    let ghost received = message;
    match message {
        Message::Acquire => {
            assert(State::Idle.allows(&received, State::Acquiring));
            Some(OnIdleMsg::Acquire)
        },
        Message::Done => {
            assert(State::Idle.allows(&received, State::Done));
            Some(OnIdleMsg::Done)
        },
        _ => None,
    }
}

/// What the client may send in state `Acquired`.
#[derive(Clone, Debug)]
pub enum OnAcquiredMsg {
    Release,
    NextTx,
    HasTx(TxId),
    GetSizes,
    GetMeasures,
}

impl OnAcquiredMsg {
    /// The message that this is.
    pub open spec fn message(self) -> Message {
        match self {
            OnAcquiredMsg::Release => Message::Release,
            OnAcquiredMsg::NextTx => Message::NextTx,
            OnAcquiredMsg::HasTx(param0) => Message::HasTx(param0),
            OnAcquiredMsg::GetSizes => Message::GetSizes,
            OnAcquiredMsg::GetMeasures => Message::GetMeasures,
        }
    }
}

/// Picks out the messages that the client may send in state `Acquired`.
pub fn server_acquired_message_filter(message: Message) -> (r: Option<OnAcquiredMsg>)
    ensures
        r is Some <==> exists|end: State| State::Acquired.allows(&message, end),
        r matches Some(picked) ==> picked.message() == message,
{
    let ghost received = message;
    match message {
        Message::Release => {
            assert(State::Acquired.allows(&received, State::Idle));
            Some(OnAcquiredMsg::Release)
        },
        Message::NextTx => {
            assert(State::Acquired.allows(&received, State::BusyNextTx));
            Some(OnAcquiredMsg::NextTx)
        },
        Message::HasTx(param0) => {
            assert(State::Acquired.allows(&received, State::BusyHasTx));
            Some(OnAcquiredMsg::HasTx(param0))
        },
        Message::GetSizes => {
            assert(State::Acquired.allows(&received, State::BusyGetSizes));
            Some(OnAcquiredMsg::GetSizes)
        },
        Message::GetMeasures => {
            assert(State::Acquired.allows(&received, State::BusyGetMeasures));
            Some(OnAcquiredMsg::GetMeasures)
        },
        _ => None,
    }
}

/// A message is allowed in at most one way: the state it leads to is
/// determined by the state it is sent in.
pub proof fn lemma_one_end(state: State, message: Message, end1: State, end2: State)
    requires
        state.allows(&message, end1),
        state.allows(&message, end2),
    ensures
        end1 == end2,
{
}

/// Nobody may send in a state exactly when no message is allowed in it:
/// such a state is never left.
pub proof fn lemma_final_states(state: State)
    ensures
        state.agency() is None <==> forall|message: Message, end: State|
            !state.allows(&message, end),
{
    match state {
        State::Idle => {
            let witness = Message::Acquire;
            assert(state.allows(&witness, State::Acquiring));
        },
        State::Acquiring => {
            let witness = Message::Acquired(arbitrary());
            assert(state.allows(&witness, State::Acquired));
        },
        State::Acquired => {
            let witness = Message::Release;
            assert(state.allows(&witness, State::Idle));
        },
        State::BusyNextTx => {
            let witness = Message::ReplyNextTx(arbitrary());
            assert(state.allows(&witness, State::Acquired));
        },
        State::BusyHasTx => {
            let witness = Message::ReplyHasTx(arbitrary());
            assert(state.allows(&witness, State::Acquired));
        },
        State::BusyGetSizes => {
            let witness = Message::ReplyGetSizes(arbitrary());
            assert(state.allows(&witness, State::Acquired));
        },
        State::BusyGetMeasures => {
            let witness = Message::ReplyGetMeasures(arbitrary(), arbitrary());
            assert(state.allows(&witness, State::Acquired));
        },
        State::Done => {},
    }
}

/// Whoever sends a message that is allowed has the right to speak: the
/// side that may send in a state is the side declared to send the
/// message.
pub proof fn lemma_sender_has_agency(state: State, message: Message, end: State)
    requires
        state.allows(&message, end),
    ensures
        state.agency() == Some(message.declared_sender()),
{
}

impl State {
    /// The place of the state in the list of the states.
    pub open spec fn place(self) -> usize {
        match self {
            State::Idle => 0,
            State::Acquiring => 1,
            State::Acquired => 2,
            State::BusyNextTx => 3,
            State::BusyHasTx => 4,
            State::BusyGetSizes => 5,
            State::BusyGetMeasures => 6,
            State::Done => 7,
        }
    }

    /// The place of the state in the list of the states.
    pub fn index(self) -> (i: usize)
        ensures
            i == self.place(),
    {
        match self {
            State::Idle => 0,
            State::Acquiring => 1,
            State::Acquired => 2,
            State::BusyNextTx => 3,
            State::BusyHasTx => 4,
            State::BusyGetSizes => 5,
            State::BusyGetMeasures => 6,
            State::Done => 7,
        }
    }
}

impl Message {
    /// The place of the message in the list of the messages.
    pub open spec fn place(&self) -> usize {
        match self {
            Message::Done => 0,
            Message::Acquire => 1,
            Message::Acquired(..) => 2,
            Message::Release => 3,
            Message::NextTx => 4,
            Message::ReplyNextTx(..) => 5,
            Message::HasTx(..) => 6,
            Message::ReplyHasTx(..) => 7,
            Message::GetSizes => 8,
            Message::ReplyGetSizes(..) => 9,
            Message::GetMeasures => 10,
            Message::ReplyGetMeasures(..) => 11,
        }
    }

    /// The place of the message in the list of the messages.
    pub fn index(&self) -> (i: usize)
        ensures
            i == self.place(),
    {
        match self {
            Message::Done => 0,
            Message::Acquire => 1,
            Message::Acquired(..) => 2,
            Message::Release => 3,
            Message::NextTx => 4,
            Message::ReplyNextTx(..) => 5,
            Message::HasTx(..) => 6,
            Message::ReplyHasTx(..) => 7,
            Message::GetSizes => 8,
            Message::ReplyGetSizes(..) => 9,
            Message::GetMeasures => 10,
            Message::ReplyGetMeasures(..) => 11,
        }
    }
}

/// The transitions of the protocol as they are declared, each state and
/// message by its place.
pub open spec fn declared() -> Seq<Transition> {
    seq![
        Transition { start: 0, message: 1, end: 1 },
        Transition { start: 1, message: 2, end: 2 },
        Transition { start: 2, message: 3, end: 0 },
        Transition { start: 2, message: 4, end: 3 },
        Transition { start: 3, message: 5, end: 2 },
        Transition { start: 2, message: 6, end: 4 },
        Transition { start: 4, message: 7, end: 2 },
        Transition { start: 2, message: 8, end: 5 },
        Transition { start: 5, message: 9, end: 2 },
        Transition { start: 2, message: 10, end: 6 },
        Transition { start: 6, message: 11, end: 2 },
        Transition { start: 0, message: 0, end: 7 },
    ]
}

/// The places of the messages that the client is declared to send.
pub open spec fn declared_clients() -> Seq<usize> {
    seq![0usize, 1usize, 3usize, 4usize, 6usize, 8usize, 10usize]
}

/// The declaration of the protocol, as data.
pub fn declaration() -> (r: (Context, Vec<usize>))
    ensures
        r.0@ == declared(),
        r.1@ == declared_clients(),
{
    let mut transitions: Vec<Transition> = Vec::new();
    transitions.push(Transition { start: 0, message: 1, end: 1 });
    transitions.push(Transition { start: 1, message: 2, end: 2 });
    transitions.push(Transition { start: 2, message: 3, end: 0 });
    transitions.push(Transition { start: 2, message: 4, end: 3 });
    transitions.push(Transition { start: 3, message: 5, end: 2 });
    transitions.push(Transition { start: 2, message: 6, end: 4 });
    transitions.push(Transition { start: 4, message: 7, end: 2 });
    transitions.push(Transition { start: 2, message: 8, end: 5 });
    transitions.push(Transition { start: 5, message: 9, end: 2 });
    transitions.push(Transition { start: 2, message: 10, end: 6 });
    transitions.push(Transition { start: 6, message: 11, end: 2 });
    transitions.push(Transition { start: 0, message: 0, end: 7 });
    let mut clients: Vec<usize> = Vec::new();
    clients.push(0);
    clients.push(1);
    clients.push(3);
    clients.push(4);
    clients.push(6);
    clients.push(8);
    clients.push(10);
    assert(transitions@ =~= declared());
    assert(clients@ =~= declared_clients());
    (Context::new(transitions), clients)
}

/// The relation is the declaration: a message is allowed in a state and
/// leads to another exactly when the transition function derived from the
/// declaration says so.
pub proof fn lemma_relation_is_declared(state: State, message: Message, end: State)
    ensures
        state.allows(&message, end) <==> next_state(declared(), state.place(), message.place())
            == Some(end.place()),
{
    reveal_with_fuel(next_state, 13);
    let d = declared();
    assert(d.skip(1) =~= d.skip(0).skip(1));
    assert(d.skip(2) =~= d.skip(1).skip(1));
    assert(d.skip(3) =~= d.skip(2).skip(1));
    assert(d.skip(4) =~= d.skip(3).skip(1));
    assert(d.skip(5) =~= d.skip(4).skip(1));
    assert(d.skip(6) =~= d.skip(5).skip(1));
    assert(d.skip(7) =~= d.skip(6).skip(1));
    assert(d.skip(8) =~= d.skip(7).skip(1));
    assert(d.skip(9) =~= d.skip(8).skip(1));
    assert(d.skip(10) =~= d.skip(9).skip(1));
    assert(d.skip(11) =~= d.skip(10).skip(1));
    assert(d.skip(12) =~= d.skip(11).skip(1));
    assert(d.skip(0) =~= d);
}

/// A message is written as an array: the number of its kind, then what it carries.
impl CborCodec for Message {
    open spec fn encodes(self, tree: Cbor) -> bool {
        tree matches Cbor::Array(items) && match self {
            Message::Done => items@.len() == 1 && is_u64(0, items@[0]),
            Message::Acquire => items@.len() == 1 && is_u64(1, items@[0]),
            Message::Acquired(f0) => items@.len() == 2 && is_u64(2, items@[0]) && f0.encodes(items@[1]),
            Message::Release => items@.len() == 1 && is_u64(3, items@[0]),
            Message::NextTx => items@.len() == 1 && is_u64(5, items@[0]),
            Message::ReplyNextTx(f0) => items@.len() == 2 && is_u64(6, items@[0]) && f0.encodes(items@[1]),
            Message::HasTx(f0) => items@.len() == 2 && is_u64(7, items@[0]) && f0.encodes(items@[1]),
            Message::ReplyHasTx(f0) => items@.len() == 2 && is_u64(8, items@[0]) && f0.encodes(items@[1]),
            Message::GetSizes => items@.len() == 1 && is_u64(9, items@[0]),
            Message::ReplyGetSizes(f0) => items@.len() == 2 && is_u64(10, items@[0]) && f0.encodes(items@[1]),
            Message::GetMeasures => items@.len() == 1 && is_u64(11, items@[0]),
            Message::ReplyGetMeasures(f0, f1) => items@.len() == 3 && is_u64(12, items@[0]) && f0.encodes(items@[1]) && f1.encodes(items@[2]),
        }
    }

    fn to_cbor(&self) -> (tree: Cbor) {
        let mut items: Vec<Cbor> = Vec::new();
        match self {
            Message::Done => {
                items.push(from_u64(0));
            },
            Message::Acquire => {
                items.push(from_u64(1));
            },
            Message::Acquired(f0) => {
                items.push(from_u64(2));
                items.push(f0.to_cbor());
            },
            Message::Release => {
                items.push(from_u64(3));
            },
            Message::NextTx => {
                items.push(from_u64(5));
            },
            Message::ReplyNextTx(f0) => {
                items.push(from_u64(6));
                items.push(f0.to_cbor());
            },
            Message::HasTx(f0) => {
                items.push(from_u64(7));
                items.push(f0.to_cbor());
            },
            Message::ReplyHasTx(f0) => {
                items.push(from_u64(8));
                items.push(f0.to_cbor());
            },
            Message::GetSizes => {
                items.push(from_u64(9));
            },
            Message::ReplyGetSizes(f0) => {
                items.push(from_u64(10));
                items.push(f0.to_cbor());
            },
            Message::GetMeasures => {
                items.push(from_u64(11));
            },
            Message::ReplyGetMeasures(f0, f1) => {
                items.push(from_u64(12));
                items.push(f0.to_cbor());
                items.push(f1.to_cbor());
            },
        }
        Cbor::Array(items)
    }

    fn from_cbor(tree: &Cbor) -> (r: Result<Message, Undecodable>) {
        let items = match items_of(tree) {
            Ok(items) => items,
            Err(e) => {
                assert forall|value: Message| !value.encodes(*tree) by {}
                return Err(e);
            },
        };
        if items.len() == 0 {
            assert forall|value: Message| !value.encodes(*tree) by {}
            return Err(Undecodable);
        }
        let tag = match to_u64(&items[0]) {
            Ok(tag) => tag,
            Err(e) => {
                assert forall|value: Message| !value.encodes(*tree) by {}
                return Err(e);
            },
        };
        if tag == 0 {
            if items.len() != 1 {
                assert forall|value: Message| !value.encodes(*tree) by {}
                return Err(Undecodable);
            }
            let read = Message::Done;
            assert(read.encodes(*tree));
            Ok(read)
        } else if tag == 1 {
            if items.len() != 1 {
                assert forall|value: Message| !value.encodes(*tree) by {}
                return Err(Undecodable);
            }
            let read = Message::Acquire;
            assert(read.encodes(*tree));
            Ok(read)
        } else if tag == 2 {
            if items.len() != 2 {
                assert forall|value: Message| !value.encodes(*tree) by {}
                return Err(Undecodable);
            }
            let f0 = match <u64 as CborCodec>::from_cbor(&items[1]) {
                Ok(value) => value,
                Err(e) => {
                    assert forall|value: Message| !value.encodes(*tree) by {}
                    return Err(e);
                },
            };
            let read = Message::Acquired(f0);
            assert(read.encodes(*tree));
            Ok(read)
        } else if tag == 3 {
            if items.len() != 1 {
                assert forall|value: Message| !value.encodes(*tree) by {}
                return Err(Undecodable);
            }
            let read = Message::Release;
            assert(read.encodes(*tree));
            Ok(read)
        } else if tag == 5 {
            if items.len() != 1 {
                assert forall|value: Message| !value.encodes(*tree) by {}
                return Err(Undecodable);
            }
            let read = Message::NextTx;
            assert(read.encodes(*tree));
            Ok(read)
        } else if tag == 6 {
            if items.len() != 2 {
                assert forall|value: Message| !value.encodes(*tree) by {}
                return Err(Undecodable);
            }
            let f0 = match Tx::from_cbor(&items[1]) {
                Ok(value) => value,
                Err(e) => {
                    assert forall|value: Message| !value.encodes(*tree) by {}
                    return Err(e);
                },
            };
            let read = Message::ReplyNextTx(f0);
            assert(read.encodes(*tree));
            Ok(read)
        } else if tag == 7 {
            if items.len() != 2 {
                assert forall|value: Message| !value.encodes(*tree) by {}
                return Err(Undecodable);
            }
            let f0 = match TxId::from_cbor(&items[1]) {
                Ok(value) => value,
                Err(e) => {
                    assert forall|value: Message| !value.encodes(*tree) by {}
                    return Err(e);
                },
            };
            let read = Message::HasTx(f0);
            assert(read.encodes(*tree));
            Ok(read)
        } else if tag == 8 {
            if items.len() != 2 {
                assert forall|value: Message| !value.encodes(*tree) by {}
                return Err(Undecodable);
            }
            let f0 = match <bool as CborCodec>::from_cbor(&items[1]) {
                Ok(value) => value,
                Err(e) => {
                    assert forall|value: Message| !value.encodes(*tree) by {}
                    return Err(e);
                },
            };
            let read = Message::ReplyHasTx(f0);
            assert(read.encodes(*tree));
            Ok(read)
        } else if tag == 9 {
            if items.len() != 1 {
                assert forall|value: Message| !value.encodes(*tree) by {}
                return Err(Undecodable);
            }
            let read = Message::GetSizes;
            assert(read.encodes(*tree));
            Ok(read)
        } else if tag == 10 {
            if items.len() != 2 {
                assert forall|value: Message| !value.encodes(*tree) by {}
                return Err(Undecodable);
            }
            let f0 = match Sizes::from_cbor(&items[1]) {
                Ok(value) => value,
                Err(e) => {
                    assert forall|value: Message| !value.encodes(*tree) by {}
                    return Err(e);
                },
            };
            let read = Message::ReplyGetSizes(f0);
            assert(read.encodes(*tree));
            Ok(read)
        } else if tag == 11 {
            if items.len() != 1 {
                assert forall|value: Message| !value.encodes(*tree) by {}
                return Err(Undecodable);
            }
            let read = Message::GetMeasures;
            assert(read.encodes(*tree));
            Ok(read)
        } else if tag == 12 {
            if items.len() != 3 {
                assert forall|value: Message| !value.encodes(*tree) by {}
                return Err(Undecodable);
            }
            let f0 = match <u32 as CborCodec>::from_cbor(&items[1]) {
                Ok(value) => value,
                Err(e) => {
                    assert forall|value: Message| !value.encodes(*tree) by {}
                    return Err(e);
                },
            };
            let f1 = match Measures::from_cbor(&items[2]) {
                Ok(value) => value,
                Err(e) => {
                    assert forall|value: Message| !value.encodes(*tree) by {}
                    return Err(e);
                },
            };
            let read = Message::ReplyGetMeasures(f0, f1);
            assert(read.encodes(*tree));
            Ok(read)
        } else {
            assert forall|value: Message| !value.encodes(*tree) by {}
            Err(Undecodable)
        }
    }
}
} // verus!
