//! Chain synchronisation between a node and a local client: the messages and
//! the states of the protocol between nodes, on a channel of its own.

use crate::chainsync_n2n;
use crate::frame::{Direction, Id};
use crate::protocol::Protocol;
use crate::protocol_numbers;
use vstd::prelude::*;

verus! {

/// A state of chain synchronisation, for the local channel.
#[derive(Clone, Copy, Debug, PartialEq, Eq, Structural)]
pub struct State(pub chainsync_n2n::State);

impl Default for State {
    /// The state in which every conversation begins.
    fn default() -> (s: State)
        ensures
            s == State(chainsync_n2n::State::Idle),
    {
        State(chainsync_n2n::State::Idle)
    }
}

impl State {
    /// The same state of the protocol between nodes.
    pub fn into_n2n(self) -> (s: chainsync_n2n::State)
        ensures
            s == self.0,
    {
        self.0
    }

    /// The same state, for the local channel.
    pub fn from_n2n(s: chainsync_n2n::State) -> (state: State)
        ensures
            state.0 == s,
    {
        State(s)
    }
}

impl From<State> for chainsync_n2n::State {
    fn from(s: State) -> (state: chainsync_n2n::State) {
        s.0
    }
}

impl vstd::std_specs::convert::FromSpecImpl<State> for chainsync_n2n::State {
    open spec fn obeys_from_spec() -> bool {
        true
    }

    open spec fn from_spec(s: State) -> chainsync_n2n::State {
        s.0
    }
}

impl From<chainsync_n2n::State> for State {
    fn from(s: chainsync_n2n::State) -> (state: State) {
        State(s)
    }
}

impl vstd::std_specs::convert::FromSpecImpl<chainsync_n2n::State> for State {
    open spec fn obeys_from_spec() -> bool {
        true
    }

    open spec fn from_spec(s: chainsync_n2n::State) -> State {
        State(s)
    }
}

impl Protocol for State {
    type Message = chainsync_n2n::Message;

    open spec fn allows(self, message: &chainsync_n2n::Message, end: State) -> bool {
        self.0.allows(message, end.0)
    }

    open spec fn agency(self) -> Option<Direction> {
        self.0.agency()
    }

    open spec fn number() -> u16 {
        protocol_numbers::CHAINSYNC_N2C
    }

    open spec fn max_size() -> usize {
        8192
    }

    fn protocol_number() -> (id: Id) {
        Id::new(protocol_numbers::CHAINSYNC_N2C)
    }

    fn message_max_size() -> (size: usize) {
        8192
    }

    fn transition(self, message: &chainsync_n2n::Message) -> (next: Option<State>) {
        match self.0.transition(message) {
            Some(end) => {
                assert forall|other: State| Some(State(end)) == Some(other) implies self.allows(
                    message,
                    other,
                ) by {}
                assert forall|other: State| self.allows(message, other) implies Some(State(end))
                    == Some(other) by {
                    assert(self.0.allows(message, other.0));
                }
                Some(State(end))
            },
            None => None,
        }
    }

    fn direction(self) -> (side: Option<Direction>) {
        self.0.direction()
    }
}

} // verus!
