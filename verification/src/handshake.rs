//! The handshake of a connection, step by step: the client proposes a
//! version, the server accepts it or refuses.

use crate::endpoint::{out_of_turn, AsyncChannel, MessageError};
use crate::handshake_n2c;
use crate::handshake_n2n;
use crate::protocol::Protocol;
use vstd::prelude::*;

verus! {

/// The client's end of the handshake between nodes.
pub struct HandshakeN2NClient(AsyncChannel<handshake_n2n::State>);

/// The client's end of the handshake with a local node.
pub struct HandshakeN2CClient(AsyncChannel<handshake_n2c::State>);

/// The server's end of the handshake between nodes.
pub struct HandshakeN2NServer(AsyncChannel<handshake_n2n::State>);

/// The server's end of the handshake with a local client.
pub struct HandshakeN2CServer(AsyncChannel<handshake_n2c::State>);

/// Why a handshake failed for the client.
pub enum Error {
    /// The answer of the node is no answer to a proposal.
    N2NHandshakeReplyError(MessageError<handshake_n2n::State>),
    /// The node refused the connection.
    N2NConnectionRefused(handshake_n2n::RefuseReason),
    /// The answer of the local node is no answer to a proposal.
    N2CHandshakeReplyError(MessageError<handshake_n2c::State>),
    /// The local node refused the connection.
    N2CConnectionRefused(handshake_n2c::RefuseReason),
    /// The node answered with the versions it knows, as it does to a query.
    /// This client asks no query, and the handshake is over.
    N2NQueryReply(handshake_n2n::VersionProposal),
    /// The local node answered with the versions it knows, as it does to a
    /// query. This client asks no query, and the handshake is over.
    N2CQueryReply(handshake_n2c::VersionProposal),
}

/// What the server accepted: the version, and the data that goes with it.
pub struct Accepted<V, D>(pub V, pub D);

/// Why a handshake failed for the server.
pub enum ServerError {
    /// What the node sent is no proposal.
    N2NHandshakeQueryError(MessageError<handshake_n2n::State>),
    /// What the local client sent is no proposal.
    N2CHandshakeQueryError(MessageError<handshake_n2c::State>),
}

impl HandshakeN2NClient {
    /// The state of the handshake.
    pub closed spec fn state(self) -> handshake_n2n::State {
        self.0.state()
    }

    /// The client's end, on a channel in any state.
    pub fn new(channel: AsyncChannel<handshake_n2n::State>) -> (c: Self)
        ensures
            c.state() == channel.state(),
    {
        HandshakeN2NClient(channel)
    }

    /// The state of the handshake.
    pub fn get_state(&self) -> (s: handshake_n2n::State)
        ensures
            s == self.state(),
    {
        self.0.get_state()
    }

    /// Opens the handshake by proposing one version: returns the message to
    /// send, or `None` where the handshake has been opened already.
    pub fn handshake(&mut self, version: handshake_n2n::Version, magic: handshake_n2n::Magic,
        diffusion: handshake_n2n::DiffusionMode,
        peer_sharing: handshake_n2n::PeerSharing) -> (send: Option<handshake_n2n::Message>)
        ensures
            match old(self).state() {
                handshake_n2n::State::Propose => send matches Some(
                    handshake_n2n::Message::ProposeVersions(proposal),
                ) && proposal.0@ == seq![
                    (version, handshake_n2n::HandshakeNodeData { magic, diffusion, peer_sharing, query: false }),
                ] && final(self).state() == handshake_n2n::State::Confirm,
                _ => send is None && final(self).state() == old(self).state(),
            },
    {
        let data = handshake_n2n::HandshakeNodeData { magic, diffusion, peer_sharing, query: false };
        propose_n2n(&mut self.0, version, data)
    }

    /// Takes the server's answer to the proposal. See `conclude_n2n`.
    pub fn handshake_reply(&mut self, reply: handshake_n2n::Message) -> (r: Result<
        Accepted<handshake_n2n::Version, handshake_n2n::HandshakeNodeData>,
        Error,
    >)
        ensures
            concluded_n2n(old(self).state(), reply, final(self).state(), r),
    {
        conclude_n2n(&mut self.0, reply)
    }
}

/// Proposes `version` with `data` on `channel`: returns the message to send,
/// or `None` where the handshake has been opened already.
pub fn propose_n2n(
    channel: &mut AsyncChannel<handshake_n2n::State>,
    version: handshake_n2n::Version,
    data: handshake_n2n::HandshakeNodeData,
) -> (send: Option<handshake_n2n::Message>)
    ensures
        final(channel).side() == old(channel).side(),
        match old(channel).state() {
            handshake_n2n::State::Propose => send matches Some(
                handshake_n2n::Message::ProposeVersions(proposal),
            ) && proposal.0@ == seq![(version, data)] && final(channel).state()
                == handshake_n2n::State::Confirm,
            _ => send is None && final(channel).state() == old(channel).state(),
        },
{
    let versions_proposal = handshake_n2n::VersionProposal(vec![(version, data)]);
    let msg = handshake_n2n::Message::ProposeVersions(versions_proposal);
    proof {
        if channel.state() is Propose {
            assert(channel.state().allows(&msg, handshake_n2n::State::Confirm));
        }
    }
    if channel.write_one(&msg) {
        Some(msg)
    } else {
        None
    }
}

/// What the server's answer `reply` to a proposal means for a handshake in
/// state `before`: the state it leaves and the client's result.
///
/// While the server is to confirm, `AcceptVersion` ends the handshake well,
/// with the version and data that the server accepted; `Refuse` ends it
/// with the server's reason, and `QueryReply` with the versions that the
/// server listed; any other message is not allowed. In any other state no
/// answer is expected.
pub open spec fn concluded_n2n(
    before: handshake_n2n::State,
    reply: handshake_n2n::Message,
    after: handshake_n2n::State,
    r: Result<Accepted<handshake_n2n::Version, handshake_n2n::HandshakeNodeData>, Error>,
) -> bool {
    if before is Confirm {
        match reply {
            handshake_n2n::Message::AcceptVersion(version, data) => r == Ok::<
                Accepted<handshake_n2n::Version, handshake_n2n::HandshakeNodeData>,
                Error,
            >(Accepted(version, data)) && after == handshake_n2n::State::Done,
            handshake_n2n::Message::Refuse(reason) => r == Err::<
                Accepted<handshake_n2n::Version, handshake_n2n::HandshakeNodeData>,
                Error,
            >(
                Error::N2NConnectionRefused(reason),
            ) && after == handshake_n2n::State::Done,
            handshake_n2n::Message::QueryReply(versions) => r == Err::<
                Accepted<handshake_n2n::Version, handshake_n2n::HandshakeNodeData>,
                Error,
            >(Error::N2NQueryReply(versions)) && after == handshake_n2n::State::Done,
            _ => r == Err::<Accepted<handshake_n2n::Version, handshake_n2n::HandshakeNodeData>, Error>(
                Error::N2NHandshakeReplyError(
                    MessageError::InvalidState { current: before, msg: reply },
                ),
            ) && after == before,
        }
    } else {
        after == before && exists|e: MessageError<handshake_n2n::State>|
            r == Err::<Accepted<handshake_n2n::Version, handshake_n2n::HandshakeNodeData>, Error>(
                Error::N2NHandshakeReplyError(e),
            ) && #[trigger] out_of_turn(
                before,
                reply,
                Err::<handshake_n2n::ProposeVersionsRet, MessageError<handshake_n2n::State>>(e),
            )
    }
}

/// Takes the server's answer to a proposal on `channel`. See
/// `concluded_n2n`.
pub fn conclude_n2n(channel: &mut AsyncChannel<handshake_n2n::State>, reply: handshake_n2n::Message) -> (r:
    Result<Accepted<handshake_n2n::Version, handshake_n2n::HandshakeNodeData>, Error>)
    ensures
        final(channel).side() == old(channel).side(),
        concluded_n2n(old(channel).state(), reply, final(channel).state(), r),
{
    proof {
        if channel.state() is Confirm && (reply is AcceptVersion || reply is Refuse
            || reply is QueryReply) {
            assert(channel.state().allows(&reply, handshake_n2n::State::Done));
        }
    }
    match channel.read_one_match(reply, handshake_n2n::client_propose_versions_ret) {
        Err(e) => {
            proof {
                if !(old(channel).state() is Confirm) {
                    assert(out_of_turn(
                        old(channel).state(),
                        reply,
                        Err::<handshake_n2n::ProposeVersionsRet, MessageError<handshake_n2n::State>>(e),
                    ));
                }
            }
            Err(Error::N2NHandshakeReplyError(e))
        },
        Ok(handshake_n2n::ProposeVersionsRet::AcceptVersion(version, handshake_node_data)) => Ok(
            Accepted(version, handshake_node_data),
        ),
        Ok(handshake_n2n::ProposeVersionsRet::Refuse(refuse_reason)) => Err(
            Error::N2NConnectionRefused(refuse_reason),
        ),
        Ok(handshake_n2n::ProposeVersionsRet::QueryReply(version_proposal)) => Err(
            Error::N2NQueryReply(version_proposal),
        ),
    }
}

impl HandshakeN2NServer {
    /// The state of the handshake.
    pub closed spec fn state(self) -> handshake_n2n::State {
        self.0.state()
    }

    /// The server's end, on a channel in any state.
    pub fn new(channel: AsyncChannel<handshake_n2n::State>) -> (s: Self)
        ensures
            s.state() == channel.state(),
    {
        HandshakeN2NServer(channel)
    }

    /// The state of the handshake.
    pub fn get_state(&self) -> (s: handshake_n2n::State)
        ensures
            s == self.state(),
    {
        self.0.get_state()
    }

    /// Takes the client's proposal and answers it with what `f` decides:
    /// returns the answer, to be sent.
    ///
    /// The proposal is expected at the start of the handshake, and the
    /// handshake is over once it is answered. Any other message is an
    /// error, and so is any message later on: `InternalError` for one that
    /// the protocol allows then, `InvalidState` for one that it does not.
    /// `f` is called for a proposal at the start only.
    pub fn handshake<F>(&mut self, query: handshake_n2n::Message, f: F) -> (r: Result<
        handshake_n2n::Message,
        ServerError,
    >) where F: FnOnce(handshake_n2n::VersionProposal) -> handshake_n2n::ProposeVersionsRet
        requires
            forall|proposal: handshake_n2n::VersionProposal| f.requires((proposal,)),
        ensures
            old(self).state() is Propose ==> match query {
                handshake_n2n::Message::ProposeVersions(proposal) => exists|
                    answer: handshake_n2n::ProposeVersionsRet,
                |
                    f.ensures((proposal,), answer) && r == Ok::<handshake_n2n::Message, ServerError>(
                        answer.message(),
                    ) && final(self).state() == handshake_n2n::State::Done,
                _ => r == Err::<handshake_n2n::Message, ServerError>(
                    ServerError::N2NHandshakeQueryError(
                        MessageError::InvalidState { current: old(self).state(), msg: query },
                    ),
                ) && final(self).state() == old(self).state(),
            },
            !(old(self).state() is Propose) ==> final(self).state() == old(self).state()
                && exists|e: MessageError<handshake_n2n::State>|
                r == Err::<handshake_n2n::Message, ServerError>(
                    ServerError::N2NHandshakeQueryError(e),
                ) && #[trigger] out_of_turn(
                    old(self).state(),
                    query,
                    Err::<handshake_n2n::VersionProposal, MessageError<handshake_n2n::State>>(e),
                ),
    {
        proof {
            if self.0.state() is Propose && query is ProposeVersions {
                assert(self.0.state().allows(&query, handshake_n2n::State::Confirm));
            }
        }
        match self.0.read_one_match(query, handshake_n2n::server_propose_message_filter) {
            Err(e) => {
                proof {
                    if !(old(self).state() is Propose) {
                        assert(out_of_turn(
                            old(self).state(),
                            query,
                            Err::<handshake_n2n::VersionProposal, MessageError<handshake_n2n::State>>(e),
                        ));
                    }
                }
                Err(ServerError::N2NHandshakeQueryError(e))
            },
            Ok(version_proposal) => {
                let ret = f(version_proposal);
                let answer = handshake_n2n::Message::from(ret);
                proof {
                    assert(self.0.state().allows(&answer, handshake_n2n::State::Done));
                }
                let allowed = self.0.write_one(&answer);
                assert(allowed);
                Ok(answer)
            },
        }
    }
}

impl HandshakeN2CClient {
    /// The state of the handshake.
    pub closed spec fn state(self) -> handshake_n2c::State {
        self.0.state()
    }

    /// The client's end, on a channel in any state.
    pub fn new(channel: AsyncChannel<handshake_n2c::State>) -> (c: Self)
        ensures
            c.state() == channel.state(),
    {
        HandshakeN2CClient(channel)
    }

    /// The state of the handshake.
    pub fn get_state(&self) -> (s: handshake_n2c::State)
        ensures
            s == self.state(),
    {
        self.0.get_state()
    }

    /// Opens the handshake by proposing one version: returns the message to
    /// send, or `None` where the handshake has been opened already.
    pub fn handshake(&mut self, version: handshake_n2c::Version, magic: handshake_n2c::Magic) -> (send: Option<handshake_n2c::Message>)
        ensures
            match old(self).state() {
                handshake_n2c::State::Propose => send matches Some(
                    handshake_n2c::Message::ProposeVersions(proposal),
                ) && proposal.0@ == seq![
                    (version, handshake_n2c::HandshakeNodeData { magic, query: false }),
                ] && final(self).state() == handshake_n2c::State::Confirm,
                _ => send is None && final(self).state() == old(self).state(),
            },
    {
        let data = handshake_n2c::HandshakeNodeData { magic, query: false };
        propose_n2c(&mut self.0, version, data)
    }

    /// Takes the server's answer to the proposal. See `conclude_n2c`.
    pub fn handshake_reply(&mut self, reply: handshake_n2c::Message) -> (r: Result<
        Accepted<handshake_n2c::Version, handshake_n2c::HandshakeNodeData>,
        Error,
    >)
        ensures
            concluded_n2c(old(self).state(), reply, final(self).state(), r),
    {
        conclude_n2c(&mut self.0, reply)
    }
}

/// Proposes `version` with `data` on `channel`: returns the message to send,
/// or `None` where the handshake has been opened already.
pub fn propose_n2c(
    channel: &mut AsyncChannel<handshake_n2c::State>,
    version: handshake_n2c::Version,
    data: handshake_n2c::HandshakeNodeData,
) -> (send: Option<handshake_n2c::Message>)
    ensures
        final(channel).side() == old(channel).side(),
        match old(channel).state() {
            handshake_n2c::State::Propose => send matches Some(
                handshake_n2c::Message::ProposeVersions(proposal),
            ) && proposal.0@ == seq![(version, data)] && final(channel).state()
                == handshake_n2c::State::Confirm,
            _ => send is None && final(channel).state() == old(channel).state(),
        },
{
    let versions_proposal = handshake_n2c::VersionProposal(vec![(version, data)]);
    let msg = handshake_n2c::Message::ProposeVersions(versions_proposal);
    proof {
        if channel.state() is Propose {
            assert(channel.state().allows(&msg, handshake_n2c::State::Confirm));
        }
    }
    if channel.write_one(&msg) {
        Some(msg)
    } else {
        None
    }
}

/// What the server's answer `reply` to a proposal means for a handshake in
/// state `before`: the state it leaves and the client's result.
///
/// While the server is to confirm, `AcceptVersion` ends the handshake well,
/// with the version and data that the server accepted; `Refuse` ends it
/// with the server's reason, and `QueryReply` with the versions that the
/// server listed; any other message is not allowed. In any other state no
/// answer is expected.
pub open spec fn concluded_n2c(
    before: handshake_n2c::State,
    reply: handshake_n2c::Message,
    after: handshake_n2c::State,
    r: Result<Accepted<handshake_n2c::Version, handshake_n2c::HandshakeNodeData>, Error>,
) -> bool {
    if before is Confirm {
        match reply {
            handshake_n2c::Message::AcceptVersion(version, data) => r == Ok::<
                Accepted<handshake_n2c::Version, handshake_n2c::HandshakeNodeData>,
                Error,
            >(Accepted(version, data)) && after == handshake_n2c::State::Done,
            handshake_n2c::Message::Refuse(reason) => r == Err::<
                Accepted<handshake_n2c::Version, handshake_n2c::HandshakeNodeData>,
                Error,
            >(
                Error::N2CConnectionRefused(reason),
            ) && after == handshake_n2c::State::Done,
            handshake_n2c::Message::QueryReply(versions) => r == Err::<
                Accepted<handshake_n2c::Version, handshake_n2c::HandshakeNodeData>,
                Error,
            >(Error::N2CQueryReply(versions)) && after == handshake_n2c::State::Done,
            _ => r == Err::<Accepted<handshake_n2c::Version, handshake_n2c::HandshakeNodeData>, Error>(
                Error::N2CHandshakeReplyError(
                    MessageError::InvalidState { current: before, msg: reply },
                ),
            ) && after == before,
        }
    } else {
        after == before && exists|e: MessageError<handshake_n2c::State>|
            r == Err::<Accepted<handshake_n2c::Version, handshake_n2c::HandshakeNodeData>, Error>(
                Error::N2CHandshakeReplyError(e),
            ) && #[trigger] out_of_turn(
                before,
                reply,
                Err::<handshake_n2c::ProposeVersionsRet, MessageError<handshake_n2c::State>>(e),
            )
    }
}

/// Takes the server's answer to a proposal on `channel`. See
/// `concluded_n2c`.
pub fn conclude_n2c(channel: &mut AsyncChannel<handshake_n2c::State>, reply: handshake_n2c::Message) -> (r:
    Result<Accepted<handshake_n2c::Version, handshake_n2c::HandshakeNodeData>, Error>)
    ensures
        final(channel).side() == old(channel).side(),
        concluded_n2c(old(channel).state(), reply, final(channel).state(), r),
{
    proof {
        if channel.state() is Confirm && (reply is AcceptVersion || reply is Refuse
            || reply is QueryReply) {
            assert(channel.state().allows(&reply, handshake_n2c::State::Done));
        }
    }
    match channel.read_one_match(reply, handshake_n2c::client_propose_versions_ret) {
        Err(e) => {
            proof {
                if !(old(channel).state() is Confirm) {
                    assert(out_of_turn(
                        old(channel).state(),
                        reply,
                        Err::<handshake_n2c::ProposeVersionsRet, MessageError<handshake_n2c::State>>(e),
                    ));
                }
            }
            Err(Error::N2CHandshakeReplyError(e))
        },
        Ok(handshake_n2c::ProposeVersionsRet::AcceptVersion(version, handshake_node_data)) => Ok(
            Accepted(version, handshake_node_data),
        ),
        Ok(handshake_n2c::ProposeVersionsRet::Refuse(refuse_reason)) => Err(
            Error::N2CConnectionRefused(refuse_reason),
        ),
        Ok(handshake_n2c::ProposeVersionsRet::QueryReply(version_proposal)) => Err(
            Error::N2CQueryReply(version_proposal),
        ),
    }
}

impl HandshakeN2CServer {
    /// The state of the handshake.
    pub closed spec fn state(self) -> handshake_n2c::State {
        self.0.state()
    }

    /// The server's end, on a channel in any state.
    pub fn new(channel: AsyncChannel<handshake_n2c::State>) -> (s: Self)
        ensures
            s.state() == channel.state(),
    {
        HandshakeN2CServer(channel)
    }

    /// The state of the handshake.
    pub fn get_state(&self) -> (s: handshake_n2c::State)
        ensures
            s == self.state(),
    {
        self.0.get_state()
    }

    /// Takes the client's proposal and answers it with what `f` decides:
    /// returns the answer, to be sent.
    ///
    /// The proposal is expected at the start of the handshake, and the
    /// handshake is over once it is answered. Any other message is an
    /// error, and so is any message later on: `InternalError` for one that
    /// the protocol allows then, `InvalidState` for one that it does not.
    /// `f` is called for a proposal at the start only.
    pub fn handshake<F>(&mut self, query: handshake_n2c::Message, f: F) -> (r: Result<
        handshake_n2c::Message,
        ServerError,
    >) where F: FnOnce(handshake_n2c::VersionProposal) -> handshake_n2c::ProposeVersionsRet
        requires
            forall|proposal: handshake_n2c::VersionProposal| f.requires((proposal,)),
        ensures
            old(self).state() is Propose ==> match query {
                handshake_n2c::Message::ProposeVersions(proposal) => exists|
                    answer: handshake_n2c::ProposeVersionsRet,
                |
                    f.ensures((proposal,), answer) && r == Ok::<handshake_n2c::Message, ServerError>(
                        answer.message(),
                    ) && final(self).state() == handshake_n2c::State::Done,
                _ => r == Err::<handshake_n2c::Message, ServerError>(
                    ServerError::N2CHandshakeQueryError(
                        MessageError::InvalidState { current: old(self).state(), msg: query },
                    ),
                ) && final(self).state() == old(self).state(),
            },
            !(old(self).state() is Propose) ==> final(self).state() == old(self).state()
                && exists|e: MessageError<handshake_n2c::State>|
                r == Err::<handshake_n2c::Message, ServerError>(
                    ServerError::N2CHandshakeQueryError(e),
                ) && #[trigger] out_of_turn(
                    old(self).state(),
                    query,
                    Err::<handshake_n2c::VersionProposal, MessageError<handshake_n2c::State>>(e),
                ),
    {
        proof {
            if self.0.state() is Propose && query is ProposeVersions {
                assert(self.0.state().allows(&query, handshake_n2c::State::Confirm));
            }
        }
        match self.0.read_one_match(query, handshake_n2c::server_propose_message_filter) {
            Err(e) => {
                proof {
                    if !(old(self).state() is Propose) {
                        assert(out_of_turn(
                            old(self).state(),
                            query,
                            Err::<handshake_n2c::VersionProposal, MessageError<handshake_n2c::State>>(e),
                        ));
                    }
                }
                Err(ServerError::N2CHandshakeQueryError(e))
            },
            Ok(version_proposal) => {
                let ret = f(version_proposal);
                let answer = handshake_n2c::Message::from(ret);
                proof {
                    assert(self.0.state().allows(&answer, handshake_n2c::State::Done));
                }
                let allowed = self.0.write_one(&answer);
                assert(allowed);
                Ok(answer)
            },
        }
    }
}

} // verus!
