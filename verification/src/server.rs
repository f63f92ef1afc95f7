//! Setting up the server's side of a connection: which channels it has.

use crate::blockfetch;
use crate::blockfetch_client::BlockFetchServer;
use crate::chainsync_client::ChainSyncServer;
use crate::chainsync_n2c;
use crate::chainsync_n2n;
use crate::channels_map::{ascending, lookup, DuplicateChannel};
use crate::endpoint::{
    end_of, has_channel, lemma_other_channels_kept, registered, AsyncRawChannel, HandleChannels,
};
use crate::frame::{Direction, Id, OnDirection};
use crate::handshake::{HandshakeN2CServer, HandshakeN2NServer};
use crate::handshake_n2c;
use crate::handshake_n2n;
use crate::protocol::Protocol;
use crate::protocol_numbers;
use vstd::pervasive::unreached;
use vstd::prelude::*;

verus! {

/// The server's side of a connection that is being set up.
///
/// The conversations that the server offers are registered here. The
/// handshake is not among them: it is added when the connection is accepted.
pub struct ServerBuilder {
    channels: HandleChannels,
}

impl View for ServerBuilder {
    type V = Seq<(Id, OnDirection<AsyncRawChannel>)>;

    /// The channels registered so far, in ascending order of their identifiers.
    closed spec fn view(&self) -> Seq<(Id, OnDirection<AsyncRawChannel>)> {
        self.channels@
    }
}

impl ServerBuilder {
    #[verifier::type_invariant]
    spec fn handshake_free(self) -> bool {
        !has_channel(self.channels@, protocol_numbers::HANDSHAKE)
    }

    /// A server without conversations.
    pub fn new() -> (b: Self)
        ensures
            b@.len() == 0,
    {
        let channels = HandleChannels::new();
        ServerBuilder { channels }
    }

    /// Adds chain synchronisation between nodes, and gives the server's end.
    pub fn with_n2n_chainsync(&mut self) -> (r: Result<ChainSyncServer, DuplicateChannel>)
        ensures
            r is Err <==> has_channel(old(self)@, protocol_numbers::CHAINSYNC_N2N),
            r matches Err(e) ==> e.0.value() == protocol_numbers::CHAINSYNC_N2N,
            r matches Ok(server) ==> server matches ChainSyncServer::N2N(channel)
                && channel.state() == chainsync_n2n::State::Idle,
            has_channel(final(self)@, protocol_numbers::CHAINSYNC_N2N),
            r is Ok ==> forall|id: Id|
                id.value() == protocol_numbers::CHAINSYNC_N2N ==> #[trigger] registered(
                    final(self)@,
                    id,
                    OnDirection::Responder(()),
                    <chainsync_n2n::State as Protocol>::max_size(),
                ),
            r is Err ==> final(self)@ == old(self)@,
            forall|id: Id|
                id.value() != protocol_numbers::CHAINSYNC_N2N ==> #[trigger] lookup(final(self)@, id)
                    == lookup(old(self)@, id),
    {
        proof {
            use_type_invariant(&*self);
        }
        let ghost before = self.channels@;
        let mut channels = HandleChannels::new();
        core::mem::swap(&mut self.channels, &mut channels);
        let added = channels.add_with(
            chainsync_n2n::State::default(),
            OnDirection::Responder(()),
        );
        proof {
            lemma_other_channels_kept(
                before,
                channels@,
                protocol_numbers::CHAINSYNC_N2N,
                protocol_numbers::HANDSHAKE,
            );
        }
        self.channels = channels;
        match added {
            Ok(handles) => Ok(ChainSyncServer::new_n2n(end_of(handles, Direction::Responder))),
            Err(e) => Err(e),
        }
    }

    /// Adds chain synchronisation with a local client, and gives the
    /// server's end.
    pub fn with_n2c_chainsync(&mut self) -> (r: Result<ChainSyncServer, DuplicateChannel>)
        ensures
            r is Err <==> has_channel(old(self)@, protocol_numbers::CHAINSYNC_N2C),
            r matches Err(e) ==> e.0.value() == protocol_numbers::CHAINSYNC_N2C,
            r matches Ok(server) ==> server matches ChainSyncServer::N2C(channel)
                && channel.state().0 == chainsync_n2n::State::Idle,
            has_channel(final(self)@, protocol_numbers::CHAINSYNC_N2C),
            r is Ok ==> forall|id: Id|
                id.value() == protocol_numbers::CHAINSYNC_N2C ==> #[trigger] registered(
                    final(self)@,
                    id,
                    OnDirection::Responder(()),
                    <chainsync_n2c::State as Protocol>::max_size(),
                ),
            r is Err ==> final(self)@ == old(self)@,
            forall|id: Id|
                id.value() != protocol_numbers::CHAINSYNC_N2C ==> #[trigger] lookup(final(self)@, id)
                    == lookup(old(self)@, id),
    {
        proof {
            use_type_invariant(&*self);
        }
        let ghost before = self.channels@;
        let mut channels = HandleChannels::new();
        core::mem::swap(&mut self.channels, &mut channels);
        let added = channels.add_with(
            chainsync_n2c::State::default(),
            OnDirection::Responder(()),
        );
        proof {
            lemma_other_channels_kept(
                before,
                channels@,
                protocol_numbers::CHAINSYNC_N2C,
                protocol_numbers::HANDSHAKE,
            );
        }
        self.channels = channels;
        match added {
            Ok(handles) => Ok(ChainSyncServer::new_n2c(end_of(handles, Direction::Responder))),
            Err(e) => Err(e),
        }
    }

    /// Adds block fetch, and gives the server's end.
    pub fn with_blockfetch(&mut self) -> (r: Result<BlockFetchServer, DuplicateChannel>)
        ensures
            r is Err <==> has_channel(old(self)@, protocol_numbers::BLOCKFETCH),
            r matches Err(e) ==> e.0.value() == protocol_numbers::BLOCKFETCH,
            r matches Ok(server) ==> server.state() == blockfetch::State::Idle,
            has_channel(final(self)@, protocol_numbers::BLOCKFETCH),
            r is Ok ==> forall|id: Id|
                id.value() == protocol_numbers::BLOCKFETCH ==> #[trigger] registered(
                    final(self)@,
                    id,
                    OnDirection::Responder(()),
                    <blockfetch::State as Protocol>::max_size(),
                ),
            r is Err ==> final(self)@ == old(self)@,
            forall|id: Id|
                id.value() != protocol_numbers::BLOCKFETCH ==> #[trigger] lookup(final(self)@, id)
                    == lookup(old(self)@, id),
    {
        proof {
            use_type_invariant(&*self);
        }
        let ghost before = self.channels@;
        let mut channels = HandleChannels::new();
        core::mem::swap(&mut self.channels, &mut channels);
        let added = channels.add_with(blockfetch::State::default(), OnDirection::Responder(()));
        proof {
            lemma_other_channels_kept(
                before,
                channels@,
                protocol_numbers::BLOCKFETCH,
                protocol_numbers::HANDSHAKE,
            );
        }
        self.channels = channels;
        match added {
            Ok(handles) => Ok(BlockFetchServer::new(end_of(handles, Direction::Responder))),
            Err(e) => Err(e),
        }
    }

    /// Completes the channels of a connection between nodes: the handshake is
    /// added to the conversations that were registered. Returns the server's
    /// end of the handshake, and the channels.
    pub fn accept_handshake_n2n(self) -> (r: (HandshakeN2NServer, HandleChannels))
        ensures
            r.0.state() == handshake_n2n::State::Propose,
            r.1@.len() > 0,
            ascending(r.1@),
            has_channel(r.1@, protocol_numbers::HANDSHAKE),
            forall|id: Id|
                id.value() == protocol_numbers::HANDSHAKE ==> #[trigger] registered(
                    r.1@,
                    id,
                    OnDirection::Responder(()),
                    <handshake_n2n::State as Protocol>::max_size(),
                ),
            forall|id: Id|
                id.value() != protocol_numbers::HANDSHAKE ==> #[trigger] lookup(r.1@, id) == lookup(
                    self@,
                    id,
                ),
    {
        proof {
            use_type_invariant(&self);
        }
        let mut channels = self.channels;
        let added = channels.add_with(
            handshake_n2n::State::default(),
            OnDirection::Responder(()),
        );
        let handles = match added {
            Ok(handles) => handles,
            Err(_) => unreached(),
        };
        (HandshakeN2NServer::new(end_of(handles, Direction::Responder)), channels)
    }

    /// Completes the channels of a connection to a local client: the
    /// handshake is added to the conversations that were registered. Returns
    /// the server's end of the handshake, and the channels.
    pub fn accept_handshake_n2c(self) -> (r: (HandshakeN2CServer, HandleChannels))
        ensures
            r.0.state() == handshake_n2c::State::Propose,
            r.1@.len() > 0,
            ascending(r.1@),
            has_channel(r.1@, protocol_numbers::HANDSHAKE),
            forall|id: Id|
                id.value() == protocol_numbers::HANDSHAKE ==> #[trigger] registered(
                    r.1@,
                    id,
                    OnDirection::Responder(()),
                    <handshake_n2c::State as Protocol>::max_size(),
                ),
            forall|id: Id|
                id.value() != protocol_numbers::HANDSHAKE ==> #[trigger] lookup(r.1@, id) == lookup(
                    self@,
                    id,
                ),
    {
        proof {
            use_type_invariant(&self);
        }
        let mut channels = self.channels;
        let added = channels.add_with(
            handshake_n2c::State::default(),
            OnDirection::Responder(()),
        );
        let handles = match added {
            Ok(handles) => handles,
            Err(_) => unreached(),
        };
        (HandshakeN2CServer::new(end_of(handles, Direction::Responder)), channels)
    }
}

} // verus!
