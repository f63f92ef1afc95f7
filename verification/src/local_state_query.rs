//! Local state query: a client asks its node about the ledger state at a
//! point of the chain.

use crate::cbor::{from_u64, is_u64, items_of, same_tree, to_u64, Cbor, CborCodec, Undecodable};
pub use crate::chainsync_n2n::Point;
use crate::frame::{Direction, Id};
use crate::protocol::Protocol;
use crate::protocol_numbers;
use crate::transitions::{next_state, Context, Transition};
use vstd::prelude::*;

verus! {

/// Any CBOR item. Its content is not looked at.
#[derive(Clone, Debug)]
pub struct CborData(pub Cbor);

/// Why a point could not be acquired.
#[derive(Clone, Copy, Debug, PartialEq, Eq, Structural)]
pub enum Failure {
    PointTooOld,
    PointNotOnChain,
}

/// A failure is written as an integer: the number of its kind.
impl CborCodec for Failure {
    open spec fn encodes(self, tree: Cbor) -> bool {
        match self {
            Failure::PointTooOld => is_u64(0, tree),
            Failure::PointNotOnChain => is_u64(1, tree),
        }
    }

    fn to_cbor(&self) -> (tree: Cbor) {
        match self {
            Failure::PointTooOld => from_u64(0),
            Failure::PointNotOnChain => from_u64(1),
        }
    }

    fn from_cbor(tree: &Cbor) -> (r: Result<Failure, Undecodable>) {
        let v = match to_u64(tree) {
            Ok(value) => value,
            Err(e) => {
                assert forall|value: Failure| !value.encodes(*tree) by {}
                return Err(e);
            },
        };
        if v == 0 {
            Ok(Failure::PointTooOld)
        } else if v == 1 {
            Ok(Failure::PointNotOnChain)
        } else {
            assert forall|value: Failure| !value.encodes(*tree) by {}
            Err(Undecodable)
        }
    }
}

/// An item that is not looked at is written as it is.
impl CborCodec for CborData {
    open spec fn encodes(self, tree: Cbor) -> bool {
        same_tree(tree, self.0)
    }

    fn to_cbor(&self) -> (tree: Cbor) {
        let tree = self.0.duplicate();
        proof {
            crate::cbor::lemma_same_tree_symmetric(self.0, tree);
        }
        tree
    }

    fn from_cbor(tree: &Cbor) -> (r: Result<CborData, Undecodable>) {
        let read = CborData(tree.duplicate());
        assert(read.encodes(*tree));
        Ok(read)
    }
}

/// The states of the local state query protocol.
#[derive(Clone, Copy, Debug, PartialEq, Eq, Structural)]
pub enum State {
    /// The client may acquire a point or end the conversation.
    Idle,
    /// The node looks for the point.
    Acquiring,
    /// The client may query the state at the point.
    Acquired,
    /// The node answers the query.
    Querying,
    /// The conversation is over.
    Done,
}

impl Default for State {
    /// The state in which every conversation begins.
    fn default() -> (s: State)
        ensures
            s == State::Idle,
    {
        State::Idle
    }
}

/// The messages of the local state query protocol.
#[derive(Clone, Debug)]
pub enum Message {
    /// Asks for the state at this point.
    Acquire(Point),
    /// The state is held.
    Acquired,
    /// The state cannot be had.
    Failure(Failure),
    /// A query on the state that is held.
    Query(CborData),
    /// The answer to a query.
    Result(CborData),
    /// Lets the state go.
    Release,
    /// Asks for the state at another point.
    ReAcquire(Point),
    /// Ends the conversation.
    Done,
    /// A second tag of acquiring.
    Acquire2,
    /// A second tag of acquiring again.
    ReAcquire2,
    /// A third tag of acquiring.
    Acquire3,
    /// A third tag of acquiring again.
    ReAcquire3,
}

impl Message {
    /// Whether the message is declared as one that the client sends.
    pub open spec fn client_sent(&self) -> bool {
        self is Acquire || self is Query || self is Release || self is ReAcquire || self is Done || self is ReAcquire2 || self is ReAcquire3
    }

    /// The side that is declared to send the message: the initiator for a
    /// client's message, the responder for any other.
    pub open spec fn declared_sender(&self) -> Direction {
        if self.client_sent() {
            Direction::Initiator
        } else {
            Direction::Responder
        }
    }

    /// The side that is declared to send the message.
    pub fn sender(&self) -> (side: Direction)
        ensures
            side == self.declared_sender(),
    {
        match self {
            Message::Acquire(..) => Direction::Initiator,
            Message::Acquired => Direction::Responder,
            Message::Failure(..) => Direction::Responder,
            Message::Query(..) => Direction::Initiator,
            Message::Result(..) => Direction::Responder,
            Message::Release => Direction::Initiator,
            Message::ReAcquire(..) => Direction::Initiator,
            Message::Done => Direction::Initiator,
            Message::Acquire2 => Direction::Responder,
            Message::ReAcquire2 => Direction::Initiator,
            Message::Acquire3 => Direction::Responder,
            Message::ReAcquire3 => Direction::Initiator,
        }
    }

    /// The state that this message leads to from `current_state`, or `None`
    /// where the message is not allowed there.
    pub fn can_transition(&self, current_state: State) -> (next: Option<State>)
        ensures
            forall|end: State| next == Some(end) <==> current_state.allows(self, end),
    {
        match self {
            Message::Acquire(..) => match current_state {
                State::Idle => Some(State::Acquiring),
                _ => None,
            },
            Message::Acquired => match current_state {
                State::Acquiring => Some(State::Acquired),
                _ => None,
            },
            Message::Failure(..) => match current_state {
                State::Acquiring => Some(State::Idle),
                _ => None,
            },
            Message::Query(..) => match current_state {
                State::Acquired => Some(State::Querying),
                _ => None,
            },
            Message::Result(..) => match current_state {
                State::Querying => Some(State::Acquired),
                _ => None,
            },
            Message::Release => match current_state {
                State::Acquired => Some(State::Idle),
                _ => None,
            },
            Message::ReAcquire(..) => match current_state {
                State::Acquired => Some(State::Acquiring),
                _ => None,
            },
            Message::Done => match current_state {
                State::Idle => Some(State::Done),
                _ => None,
            },
            Message::Acquire2 => match current_state {
                State::Acquiring => Some(State::Acquired),
                _ => None,
            },
            Message::ReAcquire2 => match current_state {
                State::Acquired => Some(State::Acquiring),
                _ => None,
            },
            Message::Acquire3 => match current_state {
                State::Acquiring => Some(State::Acquired),
                _ => None,
            },
            Message::ReAcquire3 => match current_state {
                State::Acquired => Some(State::Acquiring),
                _ => None,
            },
        }
    }
}

impl Protocol for State {
    type Message = Message;

    open spec fn allows(self, message: &Message, end: State) -> bool {
        ||| self is Idle && message is Acquire && end is Acquiring
        ||| self is Acquiring && message is Acquired && end is Acquired
        ||| self is Acquiring && message is Acquire2 && end is Acquired
        ||| self is Acquiring && message is Acquire3 && end is Acquired
        ||| self is Acquired && message is Query && end is Querying
        ||| self is Querying && message is Result && end is Acquired
        ||| self is Acquired && message is ReAcquire && end is Acquiring
        ||| self is Acquired && message is ReAcquire2 && end is Acquiring
        ||| self is Acquired && message is ReAcquire3 && end is Acquiring
        ||| self is Acquiring && message is Failure && end is Idle
        ||| self is Acquired && message is Release && end is Idle
        ||| self is Idle && message is Done && end is Done
    }

    open spec fn agency(self) -> Option<Direction> {
        match self {
            State::Idle => Some(Direction::Initiator),
            State::Acquiring => Some(Direction::Responder),
            State::Acquired => Some(Direction::Initiator),
            State::Querying => Some(Direction::Responder),
            State::Done => None,
        }
    }

    open spec fn number() -> u16 {
        protocol_numbers::LOCAL_STATE_QUERY
    }

    open spec fn max_size() -> usize {
        8192
    }

    fn protocol_number() -> (id: Id) {
        Id::new(protocol_numbers::LOCAL_STATE_QUERY)
    }

    fn message_max_size() -> (size: usize) {
        8192
    }

    fn transition(self, message: &Message) -> (next: Option<State>) {
        message.can_transition(self)
    }

    fn direction(self) -> (side: Option<Direction>) {
        match self {
            State::Idle => Some(Direction::Initiator),
            State::Acquiring => Some(Direction::Responder),
            State::Acquired => Some(Direction::Initiator),
            State::Querying => Some(Direction::Responder),
            State::Done => None,
        }
    }
}

/// What the server may answer to `Acquire`.
#[derive(Clone, Debug)]
pub enum AcquireRet {
    Acquired,
    Acquire2,
    Acquire3,
    Failure(Failure),
}

impl AcquireRet {
    /// The message that this is.
    pub open spec fn message(self) -> Message {
        match self {
            AcquireRet::Acquired => Message::Acquired,
            AcquireRet::Acquire2 => Message::Acquire2,
            AcquireRet::Acquire3 => Message::Acquire3,
            AcquireRet::Failure(param0) => Message::Failure(param0),
        }
    }
}

impl From<AcquireRet> for Message {
    fn from(r: AcquireRet) -> (m: Message) {
        match r {
            AcquireRet::Acquired => Message::Acquired,
            AcquireRet::Acquire2 => Message::Acquire2,
            AcquireRet::Acquire3 => Message::Acquire3,
            AcquireRet::Failure(param0) => Message::Failure(param0),
        }
    }
}

impl vstd::std_specs::convert::FromSpecImpl<AcquireRet> for Message {
    open spec fn obeys_from_spec() -> bool {
        true
    }

    open spec fn from_spec(r: AcquireRet) -> Message {
        r.message()
    }
}

/// Picks out the messages that may answer `Acquire`: those that are allowed
/// in state `Acquiring`.
pub fn client_acquire_ret(message: Message) -> (r: Option<AcquireRet>)
    ensures
        r is Some <==> exists|end: State| State::Acquiring.allows(&message, end),
        r matches Some(picked) ==> picked.message() == message,
{
    let ghost received = message;
    match message {
        Message::Acquired => {
            assert(State::Acquiring.allows(&received, State::Acquired));
            Some(AcquireRet::Acquired)
        },
        Message::Acquire2 => {
            assert(State::Acquiring.allows(&received, State::Acquired));
            Some(AcquireRet::Acquire2)
        },
        Message::Acquire3 => {
            assert(State::Acquiring.allows(&received, State::Acquired));
            Some(AcquireRet::Acquire3)
        },
        Message::Failure(param0) => {
            assert(State::Acquiring.allows(&received, State::Idle));
            Some(AcquireRet::Failure(param0))
        },
        _ => None,
    }
}

/// Picks out the one message that may answer `Query`, `Result`, and gives
/// what it carries.
pub fn client_query_ret(message: Message) -> (r: Option<CborData>)
    ensures
        r is Some <==> exists|end: State| State::Querying.allows(&message, end),
        r matches Some(carried) ==> message == Message::Result(carried),
{
    let ghost received = message;
    match message {
        Message::Result(param0) => {
            assert(State::Querying.allows(&received, State::Acquired));
            Some(param0)
        },
        _ => None,
    }
}

/// What the server may answer to `Release`.
#[derive(Clone, Debug)]
pub enum ReleaseRet {
    Acquire(Point),
    Done,
}

impl ReleaseRet {
    /// The message that this is.
    pub open spec fn message(self) -> Message {
        match self {
            ReleaseRet::Acquire(param0) => Message::Acquire(param0),
            ReleaseRet::Done => Message::Done,
        }
    }
}

impl From<ReleaseRet> for Message {
    fn from(r: ReleaseRet) -> (m: Message) {
        match r {
            ReleaseRet::Acquire(param0) => Message::Acquire(param0),
            ReleaseRet::Done => Message::Done,
        }
    }
}

impl vstd::std_specs::convert::FromSpecImpl<ReleaseRet> for Message {
    open spec fn obeys_from_spec() -> bool {
        true
    }

    open spec fn from_spec(r: ReleaseRet) -> Message {
        r.message()
    }
}

/// Picks out the messages that may answer `Release`: those that are allowed
/// in state `Idle`.
pub fn client_release_ret(message: Message) -> (r: Option<ReleaseRet>)
    ensures
        r is Some <==> exists|end: State| State::Idle.allows(&message, end),
        r matches Some(picked) ==> picked.message() == message,
{
    let ghost received = message;
    match message {
        Message::Acquire(param0) => {
            assert(State::Idle.allows(&received, State::Acquiring));
            Some(ReleaseRet::Acquire(param0))
        },
        Message::Done => {
            assert(State::Idle.allows(&received, State::Done));
            Some(ReleaseRet::Done)
        },
        _ => None,
    }
}

/// What the server may answer to `ReAcquire`.
#[derive(Clone, Debug)]
pub enum ReAcquireRet {
    Acquired,
    Acquire2,
    Acquire3,
    Failure(Failure),
}

impl ReAcquireRet {
    /// The message that this is.
    pub open spec fn message(self) -> Message {
        match self {
            ReAcquireRet::Acquired => Message::Acquired,
            ReAcquireRet::Acquire2 => Message::Acquire2,
            ReAcquireRet::Acquire3 => Message::Acquire3,
            ReAcquireRet::Failure(param0) => Message::Failure(param0),
        }
    }
}

impl From<ReAcquireRet> for Message {
    fn from(r: ReAcquireRet) -> (m: Message) {
        match r {
            ReAcquireRet::Acquired => Message::Acquired,
            ReAcquireRet::Acquire2 => Message::Acquire2,
            ReAcquireRet::Acquire3 => Message::Acquire3,
            ReAcquireRet::Failure(param0) => Message::Failure(param0),
        }
    }
}

impl vstd::std_specs::convert::FromSpecImpl<ReAcquireRet> for Message {
    open spec fn obeys_from_spec() -> bool {
        true
    }

    open spec fn from_spec(r: ReAcquireRet) -> Message {
        r.message()
    }
}

/// Picks out the messages that may answer `ReAcquire`: those that are allowed
/// in state `Acquiring`.
pub fn client_re_acquire_ret(message: Message) -> (r: Option<ReAcquireRet>)
    ensures
        r is Some <==> exists|end: State| State::Acquiring.allows(&message, end),
        r matches Some(picked) ==> picked.message() == message,
{
    let ghost received = message;
    match message {
        Message::Acquired => {
            assert(State::Acquiring.allows(&received, State::Acquired));
            Some(ReAcquireRet::Acquired)
        },
        Message::Acquire2 => {
            assert(State::Acquiring.allows(&received, State::Acquired));
            Some(ReAcquireRet::Acquire2)
        },
        Message::Acquire3 => {
            assert(State::Acquiring.allows(&received, State::Acquired));
            Some(ReAcquireRet::Acquire3)
        },
        Message::Failure(param0) => {
            assert(State::Acquiring.allows(&received, State::Idle));
            Some(ReAcquireRet::Failure(param0))
        },
        _ => None,
    }
}

/// What the server may answer to `ReAcquire2`.
#[derive(Clone, Debug)]
pub enum ReAcquire2Ret {
    Acquired,
    Acquire2,
    Acquire3,
    Failure(Failure),
}

impl ReAcquire2Ret {
    /// The message that this is.
    pub open spec fn message(self) -> Message {
        match self {
            ReAcquire2Ret::Acquired => Message::Acquired,
            ReAcquire2Ret::Acquire2 => Message::Acquire2,
            ReAcquire2Ret::Acquire3 => Message::Acquire3,
            ReAcquire2Ret::Failure(param0) => Message::Failure(param0),
        }
    }
}

impl From<ReAcquire2Ret> for Message {
    fn from(r: ReAcquire2Ret) -> (m: Message) {
        match r {
            ReAcquire2Ret::Acquired => Message::Acquired,
            ReAcquire2Ret::Acquire2 => Message::Acquire2,
            ReAcquire2Ret::Acquire3 => Message::Acquire3,
            ReAcquire2Ret::Failure(param0) => Message::Failure(param0),
        }
    }
}

impl vstd::std_specs::convert::FromSpecImpl<ReAcquire2Ret> for Message {
    open spec fn obeys_from_spec() -> bool {
        true
    }

    open spec fn from_spec(r: ReAcquire2Ret) -> Message {
        r.message()
    }
}

/// Picks out the messages that may answer `ReAcquire2`: those that are allowed
/// in state `Acquiring`.
pub fn client_re_acquire2_ret(message: Message) -> (r: Option<ReAcquire2Ret>)
    ensures
        r is Some <==> exists|end: State| State::Acquiring.allows(&message, end),
        r matches Some(picked) ==> picked.message() == message,
{
    let ghost received = message;
    match message {
        Message::Acquired => {
            assert(State::Acquiring.allows(&received, State::Acquired));
            Some(ReAcquire2Ret::Acquired)
        },
        Message::Acquire2 => {
            assert(State::Acquiring.allows(&received, State::Acquired));
            Some(ReAcquire2Ret::Acquire2)
        },
        Message::Acquire3 => {
            assert(State::Acquiring.allows(&received, State::Acquired));
            Some(ReAcquire2Ret::Acquire3)
        },
        Message::Failure(param0) => {
            assert(State::Acquiring.allows(&received, State::Idle));
            Some(ReAcquire2Ret::Failure(param0))
        },
        _ => None,
    }
}

/// What the server may answer to `ReAcquire3`.
#[derive(Clone, Debug)]
pub enum ReAcquire3Ret {
    Acquired,
    Acquire2,
    Acquire3,
    Failure(Failure),
}

impl ReAcquire3Ret {
    /// The message that this is.
    pub open spec fn message(self) -> Message {
        match self {
            ReAcquire3Ret::Acquired => Message::Acquired,
            ReAcquire3Ret::Acquire2 => Message::Acquire2,
            ReAcquire3Ret::Acquire3 => Message::Acquire3,
            ReAcquire3Ret::Failure(param0) => Message::Failure(param0),
        }
    }
}

impl From<ReAcquire3Ret> for Message {
    fn from(r: ReAcquire3Ret) -> (m: Message) {
        match r {
            ReAcquire3Ret::Acquired => Message::Acquired,
            ReAcquire3Ret::Acquire2 => Message::Acquire2,
            ReAcquire3Ret::Acquire3 => Message::Acquire3,
            ReAcquire3Ret::Failure(param0) => Message::Failure(param0),
        }
    }
}

impl vstd::std_specs::convert::FromSpecImpl<ReAcquire3Ret> for Message {
    open spec fn obeys_from_spec() -> bool {
        true
    }

    open spec fn from_spec(r: ReAcquire3Ret) -> Message {
        r.message()
    }
}

/// Picks out the messages that may answer `ReAcquire3`: those that are allowed
/// in state `Acquiring`.
pub fn client_re_acquire3_ret(message: Message) -> (r: Option<ReAcquire3Ret>)
    ensures
        r is Some <==> exists|end: State| State::Acquiring.allows(&message, end),
        r matches Some(picked) ==> picked.message() == message,
{
    let ghost received = message;
    match message {
        Message::Acquired => {
            assert(State::Acquiring.allows(&received, State::Acquired));
            Some(ReAcquire3Ret::Acquired)
        },
        Message::Acquire2 => {
            assert(State::Acquiring.allows(&received, State::Acquired));
            Some(ReAcquire3Ret::Acquire2)
        },
        Message::Acquire3 => {
            assert(State::Acquiring.allows(&received, State::Acquired));
            Some(ReAcquire3Ret::Acquire3)
        },
        Message::Failure(param0) => {
            assert(State::Acquiring.allows(&received, State::Idle));
            Some(ReAcquire3Ret::Failure(param0))
        },
        _ => None,
    }
}

/// What the client may send in state `Idle`.
#[derive(Clone, Debug)]
pub enum OnIdleMsg {
    Acquire(Point),
    Done,
}

impl OnIdleMsg {
    /// The message that this is.
    pub open spec fn message(self) -> Message {
        match self {
            OnIdleMsg::Acquire(param0) => Message::Acquire(param0),
            OnIdleMsg::Done => Message::Done,
        }
    }
}

/// Picks out the messages that the client may send in state `Idle`.
pub fn server_idle_message_filter(message: Message) -> (r: Option<OnIdleMsg>)
    ensures
        r is Some <==> exists|end: State| State::Idle.allows(&message, end),
        r matches Some(picked) ==> picked.message() == message,
{
    let ghost received = message;
    match message {
        Message::Acquire(param0) => {
            assert(State::Idle.allows(&received, State::Acquiring));
            Some(OnIdleMsg::Acquire(param0))
        },
        Message::Done => {
            assert(State::Idle.allows(&received, State::Done));
            Some(OnIdleMsg::Done)
        },
        _ => None,
    }
}

/// What the client may send in state `Acquired`.
#[derive(Clone, Debug)]
pub enum OnAcquiredMsg {
    Query(CborData),
    ReAcquire(Point),
    ReAcquire2,
    ReAcquire3,
    Release,
}

impl OnAcquiredMsg {
    /// The message that this is.
    pub open spec fn message(self) -> Message {
        match self {
            OnAcquiredMsg::Query(param0) => Message::Query(param0),
            OnAcquiredMsg::ReAcquire(param0) => Message::ReAcquire(param0),
            OnAcquiredMsg::ReAcquire2 => Message::ReAcquire2,
            OnAcquiredMsg::ReAcquire3 => Message::ReAcquire3,
            OnAcquiredMsg::Release => Message::Release,
        }
    }
}

/// Picks out the messages that the client may send in state `Acquired`.
pub fn server_acquired_message_filter(message: Message) -> (r: Option<OnAcquiredMsg>)
    ensures
        r is Some <==> exists|end: State| State::Acquired.allows(&message, end),
        r matches Some(picked) ==> picked.message() == message,
{
    let ghost received = message;
    match message {
        Message::Query(param0) => {
            assert(State::Acquired.allows(&received, State::Querying));
            Some(OnAcquiredMsg::Query(param0))
        },
        Message::ReAcquire(param0) => {
            assert(State::Acquired.allows(&received, State::Acquiring));
            Some(OnAcquiredMsg::ReAcquire(param0))
        },
        Message::ReAcquire2 => {
            assert(State::Acquired.allows(&received, State::Acquiring));
            Some(OnAcquiredMsg::ReAcquire2)
        },
        Message::ReAcquire3 => {
            assert(State::Acquired.allows(&received, State::Acquiring));
            Some(OnAcquiredMsg::ReAcquire3)
        },
        Message::Release => {
            assert(State::Acquired.allows(&received, State::Idle));
            Some(OnAcquiredMsg::Release)
        },
        _ => None,
    }
}

/// A message is allowed in at most one way: the state it leads to is
/// determined by the state it is sent in.
pub proof fn lemma_one_end(state: State, message: Message, end1: State, end2: State)
    requires
        state.allows(&message, end1),
        state.allows(&message, end2),
    ensures
        end1 == end2,
{
}

/// Nobody may send in a state exactly when no message is allowed in it:
/// such a state is never left.
pub proof fn lemma_final_states(state: State)
    ensures
        state.agency() is None <==> forall|message: Message, end: State|
            !state.allows(&message, end),
{
    match state {
        State::Idle => {
            let witness = Message::Acquire(arbitrary());
            assert(state.allows(&witness, State::Acquiring));
        },
        State::Acquiring => {
            let witness = Message::Acquired;
            assert(state.allows(&witness, State::Acquired));
        },
        State::Acquired => {
            let witness = Message::Query(arbitrary());
            assert(state.allows(&witness, State::Querying));
        },
        State::Querying => {
            let witness = Message::Result(arbitrary());
            assert(state.allows(&witness, State::Acquired));
        },
        State::Done => {},
    }
}

/// Whoever sends a message that is allowed has the right to speak: the
/// side that may send in a state is the side declared to send the
/// message.
pub proof fn lemma_sender_has_agency(state: State, message: Message, end: State)
    requires
        state.allows(&message, end),
    ensures
        state.agency() == Some(message.declared_sender()),
{
}

impl State {
    /// The place of the state in the list of the states.
    pub open spec fn place(self) -> usize {
        match self {
            State::Idle => 0,
            State::Acquiring => 1,
            State::Acquired => 2,
            State::Querying => 3,
            State::Done => 4,
        }
    }

    /// The place of the state in the list of the states.
    pub fn index(self) -> (i: usize)
        ensures
            i == self.place(),
    {
        match self {
            State::Idle => 0,
            State::Acquiring => 1,
            State::Acquired => 2,
            State::Querying => 3,
            State::Done => 4,
        }
    }
}

impl Message {
    /// The place of the message in the list of the messages.
    pub open spec fn place(&self) -> usize {
        match self {
            Message::Acquire(..) => 0,
            Message::Acquired => 1,
            Message::Failure(..) => 2,
            Message::Query(..) => 3,
            Message::Result(..) => 4,
            Message::Release => 5,
            Message::ReAcquire(..) => 6,
            Message::Done => 7,
            Message::Acquire2 => 8,
            Message::ReAcquire2 => 9,
            Message::Acquire3 => 10,
            Message::ReAcquire3 => 11,
        }
    }

    /// The place of the message in the list of the messages.
    pub fn index(&self) -> (i: usize)
        ensures
            i == self.place(),
    {
        match self {
            Message::Acquire(..) => 0,
            Message::Acquired => 1,
            Message::Failure(..) => 2,
            Message::Query(..) => 3,
            Message::Result(..) => 4,
            Message::Release => 5,
            Message::ReAcquire(..) => 6,
            Message::Done => 7,
            Message::Acquire2 => 8,
            Message::ReAcquire2 => 9,
            Message::Acquire3 => 10,
            Message::ReAcquire3 => 11,
        }
    }
}

/// The transitions of the protocol as they are declared, each state and
/// message by its place.
pub open spec fn declared() -> Seq<Transition> {
    seq![
        Transition { start: 0, message: 0, end: 1 },
        Transition { start: 1, message: 1, end: 2 },
        Transition { start: 1, message: 8, end: 2 },
        Transition { start: 1, message: 10, end: 2 },
        Transition { start: 2, message: 3, end: 3 },
        Transition { start: 3, message: 4, end: 2 },
        Transition { start: 2, message: 6, end: 1 },
        Transition { start: 2, message: 9, end: 1 },
        Transition { start: 2, message: 11, end: 1 },
        Transition { start: 1, message: 2, end: 0 },
        Transition { start: 2, message: 5, end: 0 },
        Transition { start: 0, message: 7, end: 4 },
    ]
}

/// The places of the messages that the client is declared to send.
pub open spec fn declared_clients() -> Seq<usize> {
    seq![0usize, 3usize, 5usize, 6usize, 7usize, 9usize, 11usize]
}

/// The declaration of the protocol, as data.
pub fn declaration() -> (r: (Context, Vec<usize>))
    ensures
        r.0@ == declared(),
        r.1@ == declared_clients(),
{
    let mut transitions: Vec<Transition> = Vec::new();
    transitions.push(Transition { start: 0, message: 0, end: 1 });
    transitions.push(Transition { start: 1, message: 1, end: 2 });
    transitions.push(Transition { start: 1, message: 8, end: 2 });
    transitions.push(Transition { start: 1, message: 10, end: 2 });
    transitions.push(Transition { start: 2, message: 3, end: 3 });
    transitions.push(Transition { start: 3, message: 4, end: 2 });
    transitions.push(Transition { start: 2, message: 6, end: 1 });
    transitions.push(Transition { start: 2, message: 9, end: 1 });
    transitions.push(Transition { start: 2, message: 11, end: 1 });
    transitions.push(Transition { start: 1, message: 2, end: 0 });
    transitions.push(Transition { start: 2, message: 5, end: 0 });
    transitions.push(Transition { start: 0, message: 7, end: 4 });
    let mut clients: Vec<usize> = Vec::new();
    clients.push(0);
    clients.push(3);
    clients.push(5);
    clients.push(6);
    clients.push(7);
    clients.push(9);
    clients.push(11);
    assert(transitions@ =~= declared());
    assert(clients@ =~= declared_clients());
    (Context::new(transitions), clients)
}

/// The relation is the declaration: a message is allowed in a state and
/// leads to another exactly when the transition function derived from the
/// declaration says so.
pub proof fn lemma_relation_is_declared(state: State, message: Message, end: State)
    ensures
        state.allows(&message, end) <==> next_state(declared(), state.place(), message.place())
            == Some(end.place()),
{
    reveal_with_fuel(next_state, 13);
    let d = declared();
    assert(d.skip(1) =~= d.skip(0).skip(1));
    assert(d.skip(2) =~= d.skip(1).skip(1));
    assert(d.skip(3) =~= d.skip(2).skip(1));
    assert(d.skip(4) =~= d.skip(3).skip(1));
    assert(d.skip(5) =~= d.skip(4).skip(1));
    assert(d.skip(6) =~= d.skip(5).skip(1));
    assert(d.skip(7) =~= d.skip(6).skip(1));
    assert(d.skip(8) =~= d.skip(7).skip(1));
    assert(d.skip(9) =~= d.skip(8).skip(1));
    assert(d.skip(10) =~= d.skip(9).skip(1));
    assert(d.skip(11) =~= d.skip(10).skip(1));
    assert(d.skip(12) =~= d.skip(11).skip(1));
    assert(d.skip(0) =~= d);
}

/// A message is written as an array: the number of its kind, then what it carries.
impl CborCodec for Message {
    open spec fn encodes(self, tree: Cbor) -> bool {
        tree matches Cbor::Array(items) && match self {
            Message::Acquire(f0) => items@.len() == 2 && is_u64(0, items@[0]) && f0.encodes(items@[1]),
            Message::Acquired => items@.len() == 1 && is_u64(1, items@[0]),
            Message::Failure(f0) => items@.len() == 2 && is_u64(2, items@[0]) && f0.encodes(items@[1]),
            Message::Query(f0) => items@.len() == 2 && is_u64(3, items@[0]) && f0.encodes(items@[1]),
            Message::Result(f0) => items@.len() == 2 && is_u64(4, items@[0]) && f0.encodes(items@[1]),
            Message::Release => items@.len() == 1 && is_u64(5, items@[0]),
            Message::ReAcquire(f0) => items@.len() == 2 && is_u64(6, items@[0]) && f0.encodes(items@[1]),
            Message::Done => items@.len() == 1 && is_u64(7, items@[0]),
            Message::Acquire2 => items@.len() == 1 && is_u64(8, items@[0]),
            Message::ReAcquire2 => items@.len() == 1 && is_u64(9, items@[0]),
            Message::Acquire3 => items@.len() == 1 && is_u64(10, items@[0]),
            Message::ReAcquire3 => items@.len() == 1 && is_u64(11, items@[0]),
        }
    }

    fn to_cbor(&self) -> (tree: Cbor) {
        let mut items: Vec<Cbor> = Vec::new();
        match self {
            Message::Acquire(f0) => {
                items.push(from_u64(0));
                items.push(f0.to_cbor());
            },
            Message::Acquired => {
                items.push(from_u64(1));
            },
            Message::Failure(f0) => {
                items.push(from_u64(2));
                items.push(f0.to_cbor());
            },
            Message::Query(f0) => {
                items.push(from_u64(3));
                items.push(f0.to_cbor());
            },
            Message::Result(f0) => {
                items.push(from_u64(4));
                items.push(f0.to_cbor());
            },
            Message::Release => {
                items.push(from_u64(5));
            },
            Message::ReAcquire(f0) => {
                items.push(from_u64(6));
                items.push(f0.to_cbor());
            },
            Message::Done => {
                items.push(from_u64(7));
            },
            Message::Acquire2 => {
                items.push(from_u64(8));
            },
            Message::ReAcquire2 => {
                items.push(from_u64(9));
            },
            Message::Acquire3 => {
                items.push(from_u64(10));
            },
            Message::ReAcquire3 => {
                items.push(from_u64(11));
            },
        }
        Cbor::Array(items)
    }

    fn from_cbor(tree: &Cbor) -> (r: Result<Message, Undecodable>) {
        let items = match items_of(tree) {
            Ok(items) => items,
            Err(e) => {
                assert forall|value: Message| !value.encodes(*tree) by {}
                return Err(e);
            },
        };
        if items.len() == 0 {
            assert forall|value: Message| !value.encodes(*tree) by {}
            return Err(Undecodable);
        }
        let tag = match to_u64(&items[0]) {
            Ok(tag) => tag,
            Err(e) => {
                assert forall|value: Message| !value.encodes(*tree) by {}
                return Err(e);
            },
        };
        if tag == 0 {
            if items.len() != 2 {
                assert forall|value: Message| !value.encodes(*tree) by {}
                return Err(Undecodable);
            }
            let f0 = match Point::from_cbor(&items[1]) {
                Ok(value) => value,
                Err(e) => {
                    assert forall|value: Message| !value.encodes(*tree) by {}
                    return Err(e);
                },
            };
            let read = Message::Acquire(f0);
            assert(read.encodes(*tree));
            Ok(read)
        } else if tag == 1 {
            if items.len() != 1 {
                assert forall|value: Message| !value.encodes(*tree) by {}
                return Err(Undecodable);
            }
            let read = Message::Acquired;
            assert(read.encodes(*tree));
            Ok(read)
        } else if tag == 2 {
            if items.len() != 2 {
                assert forall|value: Message| !value.encodes(*tree) by {}
                return Err(Undecodable);
            }
            let f0 = match Failure::from_cbor(&items[1]) {
                Ok(value) => value,
                Err(e) => {
                    assert forall|value: Message| !value.encodes(*tree) by {}
                    return Err(e);
                },
            };
            let read = Message::Failure(f0);
            assert(read.encodes(*tree));
            Ok(read)
        } else if tag == 3 {
            if items.len() != 2 {
                assert forall|value: Message| !value.encodes(*tree) by {}
                return Err(Undecodable);
            }
            let f0 = match CborData::from_cbor(&items[1]) {
                Ok(value) => value,
                Err(e) => {
                    assert forall|value: Message| !value.encodes(*tree) by {}
                    return Err(e);
                },
            };
            let read = Message::Query(f0);
            assert(read.encodes(*tree));
            Ok(read)
        } else if tag == 4 {
            if items.len() != 2 {
                assert forall|value: Message| !value.encodes(*tree) by {}
                return Err(Undecodable);
            }
            let f0 = match CborData::from_cbor(&items[1]) {
                Ok(value) => value,
                Err(e) => {
                    assert forall|value: Message| !value.encodes(*tree) by {}
                    return Err(e);
                },
            };
            let read = Message::Result(f0);
            assert(read.encodes(*tree));
            Ok(read)
        } else if tag == 5 {
            if items.len() != 1 {
                assert forall|value: Message| !value.encodes(*tree) by {}
                return Err(Undecodable);
            }
            let read = Message::Release;
            assert(read.encodes(*tree));
            Ok(read)
        } else if tag == 6 {
            if items.len() != 2 {
                assert forall|value: Message| !value.encodes(*tree) by {}
                return Err(Undecodable);
            }
            let f0 = match Point::from_cbor(&items[1]) {
                Ok(value) => value,
                Err(e) => {
                    assert forall|value: Message| !value.encodes(*tree) by {}
                    return Err(e);
                },
            };
            let read = Message::ReAcquire(f0);
            assert(read.encodes(*tree));
            Ok(read)
        } else if tag == 7 {
            if items.len() != 1 {
                assert forall|value: Message| !value.encodes(*tree) by {}
                return Err(Undecodable);
            }
            let read = Message::Done;
            assert(read.encodes(*tree));
            Ok(read)
        } else if tag == 8 {
            if items.len() != 1 {
                assert forall|value: Message| !value.encodes(*tree) by {}
                return Err(Undecodable);
            }
            let read = Message::Acquire2;
            assert(read.encodes(*tree));
            Ok(read)
        } else if tag == 9 {
            if items.len() != 1 {
                assert forall|value: Message| !value.encodes(*tree) by {}
                return Err(Undecodable);
            }
            let read = Message::ReAcquire2;
            assert(read.encodes(*tree));
            Ok(read)
        } else if tag == 10 {
            if items.len() != 1 {
                assert forall|value: Message| !value.encodes(*tree) by {}
                return Err(Undecodable);
            }
            let read = Message::Acquire3;
            assert(read.encodes(*tree));
            Ok(read)
        } else if tag == 11 {
            if items.len() != 1 {
                assert forall|value: Message| !value.encodes(*tree) by {}
                return Err(Undecodable);
            }
            let read = Message::ReAcquire3;
            assert(read.encodes(*tree));
            Ok(read)
        } else {
            assert forall|value: Message| !value.encodes(*tree) by {}
            Err(Undecodable)
        }
    }
}
} // verus!
