//! The two sides of a block fetch conversation, step by step: what to send,
//! and what a message that arrives means.

use crate::blockfetch::{
    client_request_range_ret, server_idle_message_filter, CborBlockData, Message, OnIdleMsg,
    RequestRangeRet, State,
};
use crate::chainsync_n2n::Point;
use crate::endpoint::{out_of_turn, AsyncChannel, MessageError};
use crate::protocol::Protocol;
use vstd::prelude::*;

verus! {

/// The client's end of a block fetch channel.
pub struct BlockFetchClient(AsyncChannel<State>);

/// The server's end of a block fetch channel.
pub struct BlockFetchServer(AsyncChannel<State>);

/// Picks out the messages of a batch: a block, or the end of the batch.
pub fn batch_message(message: Message) -> (r: Option<Option<CborBlockData>>)
    ensures
        message matches Message::Block(block) ==> r == Some(Some(block)),
        message is BatchDone ==> r == Some::<Option<CborBlockData>>(None),
        !(message is Block) && !(message is BatchDone) ==> r is None,
{
    match message {
        Message::Block(block) => Some(Some(block)),
        Message::BatchDone => Some(None),
        _ => None,
    }
}

impl BlockFetchClient {
    /// The state of the conversation.
    pub closed spec fn state(self) -> State {
        self.0.state()
    }

    /// The client's end, on a channel in any state.
    pub fn new(channel: AsyncChannel<State>) -> (c: Self)
        ensures
            c.state() == channel.state(),
    {
        BlockFetchClient(channel)
    }

    /// The state of the conversation.
    pub fn get_state(&self) -> (s: State)
        ensures
            s == self.state(),
    {
        self.0.get_state()
    }

    /// Asks for the blocks from `start` to `end`: returns the message to
    /// send, or `None` where the conversation is not idle.
    pub fn request_range(&mut self, start: Point, end: Point) -> (send: Option<Message>)
        ensures
            match old(self).state() {
                State::Idle => send == Some(Message::RequestRange(start, end)) && final(self).state() == State::Busy,
                _ => send is None && final(self).state() == old(self).state(),
            },
    {
        let msg = Message::RequestRange(start, end);
        proof {
            if self.0.state() is Idle {
                assert(self.0.state().allows(&msg, State::Busy));
            }
        }
        if self.0.write_one(&msg) {
            Some(msg)
        } else {
            None
        }
    }

    /// Takes the answer to a request for a range, expected while the server is busy.
    ///
    /// `NoBlocks` brings the conversation back to idle. `StartBatch` begins
    /// the batch: blocks follow. Any other message is an `InvalidState`.
    pub fn range_reply(&mut self, reply: Message) -> (r: Result<
        RequestRangeRet,
        MessageError<State>,
    >)
        ensures
            old(self).state() is Busy ==> match reply {
                Message::NoBlocks => r matches Ok(RequestRangeRet::NoBlocks) && final(self).state()
                    == State::Idle,
                Message::StartBatch => r matches Ok(RequestRangeRet::StartBatch) && final(self).state() == State::Streaming,
                _ => r matches Err(MessageError::InvalidState { current, msg }) && current
                    == State::Busy && msg == reply && final(self).state() == State::Busy,
            },
            !(old(self).state() is Busy) ==> final(self).state() == old(self).state()
                && out_of_turn(old(self).state(), reply, r),
    {
        proof {
            if self.0.state() is Busy && reply is NoBlocks {
                assert(self.0.state().allows(&reply, State::Idle));
            }
            if self.0.state() is Busy && reply is StartBatch {
                assert(self.0.state().allows(&reply, State::Streaming));
            }
        }
        self.0.read_one_match(reply, client_request_range_ret)
    }

    /// Takes the next message of a batch, while the server streams.
    ///
    /// A block is handed out and more may follow. `BatchDone` ends the batch
    /// and gives `None`: the conversation is idle again. Any other message
    /// is an `InvalidState`.
    pub fn next(&mut self, reply: Message) -> (r: Result<
        Option<CborBlockData>,
        MessageError<State>,
    >)
        ensures
            old(self).state() is Streaming ==> match reply {
                Message::Block(block) => r matches Ok(Some(b)) && b == block && final(self).state()
                    == State::Streaming,
                Message::BatchDone => r matches Ok(None) && final(self).state() == State::Idle,
                _ => r matches Err(MessageError::InvalidState { current, msg }) && current
                    == State::Streaming && msg == reply && final(self).state() == State::Streaming,
            },
            !(old(self).state() is Streaming) ==> final(self).state() == old(self).state()
                && out_of_turn(old(self).state(), reply, r),
    {
        proof {
            if self.0.state() is Streaming && reply is Block {
                assert(self.0.state().allows(&reply, State::Streaming));
            }
            if self.0.state() is Streaming && reply is BatchDone {
                assert(self.0.state().allows(&reply, State::Idle));
            }
        }
        self.0.read_one_match(reply, batch_message)
    }
}

impl BlockFetchServer {
    /// The state of the conversation.
    pub closed spec fn state(self) -> State {
        self.0.state()
    }

    /// The server's end, on a channel in any state.
    pub fn new(channel: AsyncChannel<State>) -> (s: Self)
        ensures
            s.state() == channel.state(),
    {
        BlockFetchServer(channel)
    }

    /// The state of the conversation.
    pub fn get_state(&self) -> (s: State)
        ensures
            s == self.state(),
    {
        self.0.get_state()
    }

    /// Takes what the client sends while the conversation is idle: a request
    /// for a range, after which the server is busy, or the end of the
    /// conversation. Any other message is an `InvalidState`.
    pub fn idle(&mut self, query: Message) -> (r: Result<OnIdleMsg, MessageError<State>>)
        ensures
            old(self).state() is Idle ==> match query {
                Message::RequestRange(start, end) => r matches Ok(
                    OnIdleMsg::RequestRange(a, b),
                ) && a == start && b == end && final(self).state() == State::Busy,
                Message::ClientDone => r matches Ok(OnIdleMsg::ClientDone) && final(self).state()
                    == State::Done,
                _ => r matches Err(MessageError::InvalidState { current, msg }) && current
                    == State::Idle && msg == query && final(self).state() == State::Idle,
            },
            !(old(self).state() is Idle) ==> final(self).state() == old(self).state()
                && out_of_turn(old(self).state(), query, r),
    {
        proof {
            if self.0.state() is Idle && query is RequestRange {
                assert(self.0.state().allows(&query, State::Busy));
            }
            if self.0.state() is Idle && query is ClientDone {
                assert(self.0.state().allows(&query, State::Done));
            }
        }
        self.0.read_one_match(query, server_idle_message_filter)
    }

    /// Answers a request for a range: returns `StartBatch` where the range
    /// was found and `NoBlocks` where it was not, to be sent; `None` where
    /// the server is not busy with a request.
    pub fn range_found(&mut self, found: bool) -> (send: Option<Message>)
        ensures
            match old(self).state() {
                State::Busy => if found {
                    send == Some(Message::StartBatch) && final(self).state() == State::Streaming
                } else {
                    send == Some(Message::NoBlocks) && final(self).state() == State::Idle
                },
                _ => send is None && final(self).state() == old(self).state(),
            },
    {
        let reply_msg = if found {
            Message::StartBatch
        } else {
            Message::NoBlocks
        };
        proof {
            if self.0.state() is Busy {
                if found {
                    assert(self.0.state().allows(&reply_msg, State::Streaming));
                } else {
                    assert(self.0.state().allows(&reply_msg, State::Idle));
                }
            }
        }
        if self.0.write_one(&reply_msg) {
            Some(reply_msg)
        } else {
            None
        }
    }
}

} // verus!
