//! What a mini-protocol is: a set of states, the messages that move it from
//! one state to the next, and the side that may speak in each state.

use crate::cbor::CborCodec;
use crate::frame::{Direction, Id};
use vstd::prelude::*;

verus! {

/// The state of a mini-protocol.
///
/// The transition relation is a finite set of triples, start state, message
/// and end state. It has at most one end for a start and a message.
pub trait Protocol: Sized + Copy {
    /// The messages of this protocol, each with its form as a CBOR tree.
    type Message: CborCodec;

    /// Whether `message`, sent or received in state `self`, leads to `end`.
    spec fn allows(self, message: &Self::Message, end: Self) -> bool;

    /// The side that may send next in state `self`; nobody in a final state.
    spec fn agency(self) -> Option<Direction>;

    /// The channel of this protocol.
    spec fn number() -> u16;

    /// The size of the largest message of this protocol, in bytes.
    spec fn max_size() -> usize;

    /// The channel of this protocol.
    fn protocol_number() -> (id: Id)
        ensures
            id.value() == Self::number(),
    ;

    /// The size of the largest message of this protocol, in bytes: the size
    /// of the buffer that receives them.
    fn message_max_size() -> (size: usize)
        ensures
            size == Self::max_size(),
    ;

    /// The state that `message` leads to from `self`, or `None` where the
    /// message is not allowed in this state.
    fn transition(self, message: &Self::Message) -> (next: Option<Self>)
        ensures
            forall|end: Self| next == Some(end) <==> self.allows(message, end),
    ;

    /// The side that may send next; `None` in a final state.
    fn direction(self) -> (side: Option<Direction>)
        ensures
            side == self.agency(),
    ;
}

} // verus!
