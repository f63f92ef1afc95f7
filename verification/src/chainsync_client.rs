//! The client's side of a chain synchronisation conversation, step by step,
//! for the channel between nodes and for the local one.

use crate::chainsync_n2c;
use crate::chainsync_n2n::{
    client_find_intersect_ret, client_request_next_ret, CborChainsyncData, FindIntersectRet,
    Message, Point, Points, RequestNextRet, State, Tip,
};
use crate::endpoint::{out_of_turn, AsyncChannel, MessageError};
use crate::protocol::Protocol;
use vstd::prelude::*;

verus! {

/// The client's end of a chain synchronisation channel.
pub enum ChainSyncClient {
    N2N(AsyncChannel<State>),
    N2C(AsyncChannel<chainsync_n2c::State>),
}

/// The server's end of a chain synchronisation channel.
pub enum ChainSyncServer {
    N2N(AsyncChannel<State>),
    N2C(AsyncChannel<chainsync_n2c::State>),
}

/// The next change of the server's chain.
#[derive(Clone, Debug)]
pub enum RequestNext {
    /// The chain grew by this header; with the tip.
    Forward(CborChainsyncData, Tip),
    /// The chain went back to this point; with the tip.
    Backward(Point, Tip),
}

/// Gives the tip that an answer to `FindIntersect` carries.
pub fn tip_of(answer: FindIntersectRet) -> (tip: Tip)
    ensures
        answer matches FindIntersectRet::IntersectionFound(_, t) ==> tip == t,
        answer matches FindIntersectRet::IntersectionNotFound(t) ==> tip == t,
{
    match answer {
        FindIntersectRet::IntersectionFound(_point, tip) => tip,
        FindIntersectRet::IntersectionNotFound(tip) => tip,
    }
}

/// Says what an answer to `RequestNext` means: the change of the chain, or
/// `None` where the server asks the client to wait for it.
pub fn change_of(answer: RequestNextRet) -> (change: Option<RequestNext>)
    ensures
        answer is AwaitReply ==> change is None,
        answer matches RequestNextRet::RollForward(header, tip) ==> change == Some(
            RequestNext::Forward(header, tip),
        ),
        answer matches RequestNextRet::RollBackward(point, tip) ==> change == Some(
            RequestNext::Backward(point, tip),
        ),
{
    match answer {
        RequestNextRet::AwaitReply => None,
        RequestNextRet::RollForward(cbor_chainsync_data, tip) => Some(
            RequestNext::Forward(cbor_chainsync_data, tip),
        ),
        RequestNextRet::RollBackward(point, tip) => Some(RequestNext::Backward(point, tip)),
    }
}

impl ChainSyncServer {
    /// The server's end on a channel between nodes.
    pub fn new_n2n(channel: AsyncChannel<State>) -> (s: ChainSyncServer)
        ensures
            s == ChainSyncServer::N2N(channel),
    {
        ChainSyncServer::N2N(channel)
    }

    /// The server's end on a local channel.
    pub fn new_n2c(channel: AsyncChannel<chainsync_n2c::State>) -> (s: ChainSyncServer)
        ensures
            s == ChainSyncServer::N2C(channel),
    {
        ChainSyncServer::N2C(channel)
    }
}

impl ChainSyncClient {
    /// The state of the conversation.
    pub open spec fn state(self) -> State {
        match self {
            ChainSyncClient::N2N(channel) => channel.state(),
            ChainSyncClient::N2C(channel) => channel.state().0,
        }
    }

    /// The client's end on a channel between nodes.
    pub fn new_n2n(channel: AsyncChannel<State>) -> (c: ChainSyncClient)
        ensures
            c == ChainSyncClient::N2N(channel),
    {
        ChainSyncClient::N2N(channel)
    }

    /// The client's end on a local channel.
    pub fn new_n2c(channel: AsyncChannel<chainsync_n2c::State>) -> (c: ChainSyncClient)
        ensures
            c == ChainSyncClient::N2C(channel),
    {
        ChainSyncClient::N2C(channel)
    }

    /// The state of the conversation.
    pub fn get_state(&self) -> (s: State)
        ensures
            s == self.state(),
    {
        match self {
            ChainSyncClient::N2N(channel) => channel.get_state(),
            ChainSyncClient::N2C(channel) => channel.get_state().into_n2n(),
        }
    }

    /// Takes note of a message that is about to be sent, and says whether it
    /// may be: a message that the protocol allows moves the conversation on.
    pub fn write_one(&mut self, msg: &Message) -> (allowed: bool)
        ensures
            forall|end: State|
                old(self).state().allows(msg, end) ==> allowed && final(self).state() == end,
            (forall|end: State| !old(self).state().allows(msg, end)) ==> !allowed && final(self).state() == old(self).state(),
    {
        match self {
            ChainSyncClient::N2N(async_channel) => async_channel.write_one(msg),
            ChainSyncClient::N2C(async_channel) => {
                let ghost before = async_channel.state();
                proof {
                    assert forall|end: State| before.0.allows(msg, end) implies before.allows(
                        msg,
                        chainsync_n2c::State(end),
                    ) by {}
                    if forall|end: State| !before.0.allows(msg, end) {
                        assert forall|end: chainsync_n2c::State| !before.allows(msg, end) by {
                            assert(!before.0.allows(msg, end.0));
                        }
                    }
                }
                async_channel.write_one(msg)
            },
        }
    }

    /// Takes note of a message that was received, and selects from it.
    ///
    /// A message that the protocol does not allow is an `InvalidState`. One
    /// that is allowed is handed to `f`: what that selects is returned and
    /// the conversation moves on; where it selects nothing the result is
    /// `InternalError`.
    pub fn read_one_match<F, T>(&mut self, m: Message, f: F) -> (r: Result<
        T,
        MessageError<State>,
    >) where F: FnOnce(Message) -> Option<T>
        requires
            f.requires((m,)),
        ensures
            forall|end: State|
                old(self).state().allows(&m, end) ==> exists|selected: Option<T>|
                    {
                        &&& #[trigger] f.ensures((m,), selected)
                        &&& match selected {
                            Some(t) => r == Ok::<T, MessageError<State>>(t) && final(self).state()
                                == end,
                            None => r == Err::<T, MessageError<State>>(
                                MessageError::InternalError,
                            ) && final(self).state() == old(self).state(),
                        }
                    },
            (forall|end: State| !old(self).state().allows(&m, end)) ==> r == Err::<
                T,
                MessageError<State>,
            >(MessageError::InvalidState { current: old(self).state(), msg: m }) && final(self).state() == old(self).state(),
    {
        match self {
            ChainSyncClient::N2N(async_channel) => async_channel.read_one_match(m, f),
            ChainSyncClient::N2C(async_channel) => {
                let ghost before = async_channel.state();
                proof {
                    assert forall|end: State| before.0.allows(&m, end) implies before.allows(
                        &m,
                        chainsync_n2c::State(end),
                    ) by {}
                    if forall|end: State| !before.0.allows(&m, end) {
                        assert forall|end: chainsync_n2c::State| !before.allows(&m, end) by {
                            assert(!before.0.allows(&m, end.0));
                        }
                    }
                }
                match async_channel.read_one_match(m, f) {
                    Ok(t) => Ok(t),
                    Err(e) => {
                        let to_n2n = |st: chainsync_n2c::State, msg: Message| -> (r: (
                            State,
                            Message,
                        ))
                            ensures
                                r.0 == st.0,
                                r.1 == msg,
                            { (st.into_n2n(), msg) };
                        Err(e.map_state(to_n2n))
                    },
                }
            },
        }
    }

    /// Asks where the server's chain ends: returns the message to send,
    /// `FindIntersect` with the origin alone, or `None` where the
    /// conversation is not idle.
    pub fn get_tip(&mut self) -> (send: Option<Message>)
        ensures
            match old(self).state() {
                State::Idle => send matches Some(Message::FindIntersect(points)) && points.0@
                    == seq![Point::Origin] && final(self).state() == State::Intersect,
                _ => send is None && final(self).state() == old(self).state(),
            },
    {
        let msg = Message::FindIntersect(Points(vec![Point::Origin]));
        proof {
            if self.state() is Idle {
                assert(self.state().allows(&msg, State::Intersect));
            }
        }
        if self.write_one(&msg) {
            Some(msg)
        } else {
            None
        }
    }

    /// Takes the answer to `FindIntersect`, expected while the server looks
    /// for the intersection: whether or not a point is shared, the answer
    /// carries the tip, and the conversation is idle again. Any other
    /// message is an `InvalidState`.
    pub fn tip_reply(&mut self, reply: Message) -> (r: Result<Tip, MessageError<State>>)
        ensures
            old(self).state() is Intersect ==> match reply {
                Message::IntersectionFound(_, tip) => r matches Ok(t) && t == tip && final(self).state() == State::Idle,
                Message::IntersectionNotFound(tip) => r matches Ok(t) && t == tip && final(self).state() == State::Idle,
                _ => r matches Err(MessageError::InvalidState { current, msg }) && current
                    == State::Intersect && msg == reply && final(self).state() == State::Intersect,
            },
            !(old(self).state() is Intersect) ==> final(self).state() == old(self).state()
                && out_of_turn(old(self).state(), reply, r),
    {
        proof {
            if self.state() is Intersect && (reply is IntersectionFound
                || reply is IntersectionNotFound) {
                assert(self.state().allows(&reply, State::Idle));
            }
        }
        match self.read_one_match(reply, client_find_intersect_ret) {
            Ok(answer) => Ok(tip_of(answer)),
            Err(e) => Err(e),
        }
    }

    /// Asks for the next change of the server's chain: returns the message to
    /// send, or `None` where the conversation is not idle.
    pub fn request_next(&mut self) -> (send: Option<Message>)
        ensures
            match old(self).state() {
                State::Idle => send == Some(Message::RequestNext) && final(self).state()
                    == State::CanAwait,
                _ => send is None && final(self).state() == old(self).state(),
            },
    {
        let msg = Message::RequestNext;
        proof {
            if self.state() is Idle {
                assert(self.state().allows(&msg, State::CanAwait));
            }
        }
        if self.write_one(&msg) {
            Some(msg)
        } else {
            None
        }
    }

    /// Takes an answer to `RequestNext`, expected while the server may ask
    /// the client to wait.
    ///
    /// `AwaitReply` gives `None`: the change comes with a later message.
    /// `RollForward` and `RollBackward` give the change, and the
    /// conversation is idle again. Any other message is an `InvalidState`.
    pub fn next_reply(&mut self, reply: Message) -> (r: Result<
        Option<RequestNext>,
        MessageError<State>,
    >)
        ensures
            old(self).state() is CanAwait ==> match reply {
                Message::AwaitReply => r matches Ok(None) && final(self).state()
                    == State::MustReply,
                Message::RollForward(header, tip) => r matches Ok(
                    Some(RequestNext::Forward(h, t)),
                ) && h == header && t == tip && final(self).state() == State::Idle,
                Message::RollBackward(point, tip) => r matches Ok(
                    Some(RequestNext::Backward(p, t)),
                ) && p == point && t == tip && final(self).state() == State::Idle,
                _ => r matches Err(MessageError::InvalidState { current, msg }) && current
                    == State::CanAwait && msg == reply && final(self).state() == State::CanAwait,
            },
            old(self).state() is MustReply ==> match reply {
                Message::RollForward(header, tip) => r matches Ok(
                    Some(RequestNext::Forward(h, t)),
                ) && h == header && t == tip && final(self).state() == State::Idle,
                Message::RollBackward(point, tip) => r matches Ok(
                    Some(RequestNext::Backward(p, t)),
                ) && p == point && t == tip && final(self).state() == State::Idle,
                _ => r matches Err(MessageError::InvalidState { current, msg }) && current
                    == State::MustReply && msg == reply && final(self).state()
                    == State::MustReply,
            },
            !(old(self).state() is CanAwait) && !(old(self).state() is MustReply) ==> final(self).state() == old(self).state() && out_of_turn(old(self).state(), reply, r),
    {
        proof {
            if self.state() is CanAwait && reply is AwaitReply {
                assert(self.state().allows(&reply, State::MustReply));
            }
            if (self.state() is CanAwait || self.state() is MustReply) && (reply is RollForward
                || reply is RollBackward) {
                assert(self.state().allows(&reply, State::Idle));
                assert(State::CanAwait.allows(&reply, State::Idle));
            }
        }
        match self.read_one_match(reply, client_request_next_ret) {
            Ok(answer) => Ok(change_of(answer)),
            Err(e) => Err(e),
        }
    }
}

} // verus!
