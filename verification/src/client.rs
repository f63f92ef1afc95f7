//! Setting up the client's side of a connection: which channels it has.

use crate::blockfetch;
use crate::blockfetch_client::BlockFetchClient;
use crate::chainsync_client::ChainSyncClient;
use crate::chainsync_n2c;
use crate::chainsync_n2n;
use crate::channels_map::{ascending, has_entry, lookup, DuplicateChannel};
use crate::endpoint::{
    end_of, has_channel, lemma_other_channels_kept, registered, AsyncRawChannel, HandleChannels,
};
use crate::frame::{Direction, Id, OnDirection};
use crate::handshake::{HandshakeN2CClient, HandshakeN2NClient};
use crate::handshake_n2c;
use crate::handshake_n2n;
use crate::peer_sharing;
use crate::peersharing::PeerSharingClient;
use crate::protocol::Protocol;
use crate::protocol_numbers;
use vstd::pervasive::unreached;
use vstd::prelude::*;

verus! {

/// The client's side of a connection that is being set up.
///
/// The conversations that the client wants are registered here. The
/// handshake is not among them: it is added when the connection is built.
pub struct ClientBuilder {
    channels: HandleChannels,
}

impl View for ClientBuilder {
    type V = Seq<(Id, OnDirection<AsyncRawChannel>)>;

    /// The channels registered so far, in ascending order of their identifiers.
    closed spec fn view(&self) -> Seq<(Id, OnDirection<AsyncRawChannel>)> {
        self.channels@
    }
}

impl ClientBuilder {
    #[verifier::type_invariant]
    spec fn handshake_free(self) -> bool {
        !has_channel(self.channels@, protocol_numbers::HANDSHAKE)
    }

    /// A client without conversations.
    pub fn new() -> (b: Self)
        ensures
            b@.len() == 0,
    {
        let channels = HandleChannels::new();
        ClientBuilder { channels }
    }

    /// Adds chain synchronisation between nodes, and gives the client's end.
    pub fn with_n2n_chainsync(&mut self) -> (r: Result<ChainSyncClient, DuplicateChannel>)
        ensures
            r is Err <==> has_channel(old(self)@, protocol_numbers::CHAINSYNC_N2N),
            r matches Err(e) ==> e.0.value() == protocol_numbers::CHAINSYNC_N2N,
            r matches Ok(client) ==> client.state() == chainsync_n2n::State::Idle,
            has_channel(final(self)@, protocol_numbers::CHAINSYNC_N2N),
            r is Ok ==> forall|id: Id|
                id.value() == protocol_numbers::CHAINSYNC_N2N ==> #[trigger] registered(
                    final(self)@,
                    id,
                    OnDirection::Initiator(()),
                    <chainsync_n2n::State as Protocol>::max_size(),
                ),
            r is Err ==> final(self)@ == old(self)@,
            forall|id: Id|
                id.value() != protocol_numbers::CHAINSYNC_N2N ==> #[trigger] lookup(final(self)@, id)
                    == lookup(old(self)@, id),
    {
        proof {
            use_type_invariant(&*self);
        }
        let ghost before = self.channels@;
        let mut channels = HandleChannels::new();
        core::mem::swap(&mut self.channels, &mut channels);
        let added = channels.add_with(
            chainsync_n2n::State::default(),
            OnDirection::Initiator(()),
        );
        proof {
            lemma_other_channels_kept(
                before,
                channels@,
                protocol_numbers::CHAINSYNC_N2N,
                protocol_numbers::HANDSHAKE,
            );
        }
        self.channels = channels;
        match added {
            Ok(handles) => {
                assert(handles.at(Direction::Initiator) is Some);
                Ok(ChainSyncClient::new_n2n(end_of(handles, Direction::Initiator)))
            },
            Err(e) => Err(e),
        }
    }

    /// Adds chain synchronisation with a local node, and gives the client's end.
    pub fn with_n2c_chainsync(&mut self) -> (r: Result<ChainSyncClient, DuplicateChannel>)
        ensures
            r is Err <==> has_channel(old(self)@, protocol_numbers::CHAINSYNC_N2C),
            r matches Err(e) ==> e.0.value() == protocol_numbers::CHAINSYNC_N2C,
            r matches Ok(client) ==> client.state() == chainsync_n2n::State::Idle,
            has_channel(final(self)@, protocol_numbers::CHAINSYNC_N2C),
            r is Ok ==> forall|id: Id|
                id.value() == protocol_numbers::CHAINSYNC_N2C ==> #[trigger] registered(
                    final(self)@,
                    id,
                    OnDirection::Initiator(()),
                    <chainsync_n2c::State as Protocol>::max_size(),
                ),
            r is Err ==> final(self)@ == old(self)@,
            forall|id: Id|
                id.value() != protocol_numbers::CHAINSYNC_N2C ==> #[trigger] lookup(final(self)@, id)
                    == lookup(old(self)@, id),
    {
        proof {
            use_type_invariant(&*self);
        }
        let ghost before = self.channels@;
        let mut channels = HandleChannels::new();
        core::mem::swap(&mut self.channels, &mut channels);
        let added = channels.add_with(
            chainsync_n2c::State::default(),
            OnDirection::Initiator(()),
        );
        proof {
            lemma_other_channels_kept(
                before,
                channels@,
                protocol_numbers::CHAINSYNC_N2C,
                protocol_numbers::HANDSHAKE,
            );
        }
        self.channels = channels;
        match added {
            Ok(handles) => {
                assert(handles.at(Direction::Initiator) is Some);
                Ok(ChainSyncClient::new_n2c(end_of(handles, Direction::Initiator)))
            },
            Err(e) => Err(e),
        }
    }

    /// Adds block fetch, and gives the client's end.
    pub fn with_blockfetch(&mut self) -> (r: Result<BlockFetchClient, DuplicateChannel>)
        ensures
            r is Err <==> has_channel(old(self)@, protocol_numbers::BLOCKFETCH),
            r matches Err(e) ==> e.0.value() == protocol_numbers::BLOCKFETCH,
            r matches Ok(client) ==> client.state() == blockfetch::State::Idle,
            has_channel(final(self)@, protocol_numbers::BLOCKFETCH),
            r is Ok ==> forall|id: Id|
                id.value() == protocol_numbers::BLOCKFETCH ==> #[trigger] registered(
                    final(self)@,
                    id,
                    OnDirection::Initiator(()),
                    <blockfetch::State as Protocol>::max_size(),
                ),
            r is Err ==> final(self)@ == old(self)@,
            forall|id: Id|
                id.value() != protocol_numbers::BLOCKFETCH ==> #[trigger] lookup(final(self)@, id)
                    == lookup(old(self)@, id),
    {
        proof {
            use_type_invariant(&*self);
        }
        let ghost before = self.channels@;
        let mut channels = HandleChannels::new();
        core::mem::swap(&mut self.channels, &mut channels);
        let added = channels.add_with(blockfetch::State::default(), OnDirection::Initiator(()));
        proof {
            lemma_other_channels_kept(
                before,
                channels@,
                protocol_numbers::BLOCKFETCH,
                protocol_numbers::HANDSHAKE,
            );
        }
        self.channels = channels;
        match added {
            Ok(handles) => {
                assert(handles.at(Direction::Initiator) is Some);
                Ok(BlockFetchClient::new(end_of(handles, Direction::Initiator)))
            },
            Err(e) => Err(e),
        }
    }

    /// Adds peer sharing, and gives the client's end.
    pub fn with_peersharing(&mut self) -> (r: Result<PeerSharingClient, DuplicateChannel>)
        ensures
            r is Err <==> has_channel(old(self)@, protocol_numbers::PEER_SHARING),
            r matches Err(e) ==> e.0.value() == protocol_numbers::PEER_SHARING,
            r matches Ok(client) ==> client.state() == peer_sharing::State::Idle,
            has_channel(final(self)@, protocol_numbers::PEER_SHARING),
            r is Ok ==> forall|id: Id|
                id.value() == protocol_numbers::PEER_SHARING ==> #[trigger] registered(
                    final(self)@,
                    id,
                    OnDirection::Initiator(()),
                    <peer_sharing::State as Protocol>::max_size(),
                ),
            r is Err ==> final(self)@ == old(self)@,
            forall|id: Id|
                id.value() != protocol_numbers::PEER_SHARING ==> #[trigger] lookup(final(self)@, id)
                    == lookup(old(self)@, id),
    {
        proof {
            use_type_invariant(&*self);
        }
        let ghost before = self.channels@;
        let mut channels = HandleChannels::new();
        core::mem::swap(&mut self.channels, &mut channels);
        let added = channels.add_with(peer_sharing::State::default(), OnDirection::Initiator(()));
        proof {
            lemma_other_channels_kept(
                before,
                channels@,
                protocol_numbers::PEER_SHARING,
                protocol_numbers::HANDSHAKE,
            );
        }
        self.channels = channels;
        match added {
            Ok(handles) => {
                assert(handles.at(Direction::Initiator) is Some);
                Ok(PeerSharingClient::new(end_of(handles, Direction::Initiator)))
            },
            Err(e) => Err(e),
        }
    }

    /// Completes the channels of a connection between nodes: the handshake is
    /// added to the conversations that were registered.
    ///
    /// Returns the client's end of the handshake, the channels, and what the
    /// client is to say of peer sharing in the handshake: that it is enabled
    /// exactly when the peer sharing conversation was registered.
    pub fn build_n2n(self) -> (r: (HandshakeN2NClient, HandleChannels, handshake_n2n::PeerSharing))
        ensures
            r.0.state() == handshake_n2n::State::Propose,
            r.1@.len() > 0,
            ascending(r.1@),
            has_channel(r.1@, protocol_numbers::HANDSHAKE),
            forall|id: Id|
                id.value() == protocol_numbers::HANDSHAKE ==> #[trigger] registered(
                    r.1@,
                    id,
                    OnDirection::Initiator(()),
                    <handshake_n2n::State as Protocol>::max_size(),
                ),
            forall|id: Id|
                id.value() != protocol_numbers::HANDSHAKE ==> #[trigger] lookup(r.1@, id) == lookup(
                    self@,
                    id,
                ),
            r.2 == if has_channel(self@, protocol_numbers::PEER_SHARING) {
                handshake_n2n::PeerSharing::Enabled
            } else {
                handshake_n2n::PeerSharing::Disabled
            },
    {
        proof {
            use_type_invariant(&self);
        }
        let mut channels = self.channels;
        let ghost before = channels@;
        let has_peer_sharing = channels.has(Id::new(protocol_numbers::PEER_SHARING));
        proof {
            if has_channel(before, protocol_numbers::PEER_SHARING) {
                let id = choose|id: Id|
                    id.value() == protocol_numbers::PEER_SHARING && has_entry(before, id);
                assert forall|other: Id| other.value() == id.value() implies other == id by {
                    Id::lemma_value_injective(other, id);
                }
            }
        }
        let added = channels.add_with(
            handshake_n2n::State::default(),
            OnDirection::Initiator(()),
        );
        let peer_sharing = if has_peer_sharing {
            handshake_n2n::PeerSharing::Enabled
        } else {
            handshake_n2n::PeerSharing::Disabled
        };
        let handles = match added {
            Ok(handles) => handles,
            Err(_) => unreached(),
        };
        assert(handles.at(Direction::Initiator) is Some);
        (HandshakeN2NClient::new(end_of(handles, Direction::Initiator)), channels, peer_sharing)
    }

    /// Completes the channels of a connection to a local node: the handshake
    /// is added to the conversations that were registered.
    ///
    /// Returns the client's end of the handshake, and the channels.
    pub fn build_n2c(self) -> (r: (HandshakeN2CClient, HandleChannels))
        ensures
            r.0.state() == handshake_n2c::State::Propose,
            r.1@.len() > 0,
            ascending(r.1@),
            has_channel(r.1@, protocol_numbers::HANDSHAKE),
            forall|id: Id|
                id.value() == protocol_numbers::HANDSHAKE ==> #[trigger] registered(
                    r.1@,
                    id,
                    OnDirection::Initiator(()),
                    <handshake_n2c::State as Protocol>::max_size(),
                ),
            forall|id: Id|
                id.value() != protocol_numbers::HANDSHAKE ==> #[trigger] lookup(r.1@, id) == lookup(
                    self@,
                    id,
                ),
    {
        proof {
            use_type_invariant(&self);
        }
        let mut channels = self.channels;
        let added = channels.add_with(
            handshake_n2c::State::default(),
            OnDirection::Initiator(()),
        );
        let handles = match added {
            Ok(handles) => handles,
            Err(_) => unreached(),
        };
        assert(handles.at(Direction::Initiator) is Some);
        (HandshakeN2CClient::new(end_of(handles, Direction::Initiator)), channels)
    }
}

} // verus!
