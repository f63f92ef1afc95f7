use network_csm::blockfetch;
use network_csm::blockfetch::CborBlockData;
use network_csm::blockfetch_client::{BlockFetchClient, BlockFetchServer};
use network_csm::chainsync_client::{ChainSyncClient, RequestNext};
use network_csm::chainsync_n2c;
use network_csm::chainsync_n2n;
use network_csm::chainsync_n2n::{CborChainsyncData, Point, Tip};
use network_csm::client::ClientBuilder;
use network_csm::endpoint::{AsyncChannel, MessageError};
use network_csm::frame::{Direction, Id};
use network_csm::handshake::{
    Accepted, Error, HandshakeN2CClient, HandshakeN2NClient, HandshakeN2NServer, ServerError,
};
use network_csm::handshake_n2c;
use network_csm::handshake_n2n;
use network_csm::handshake_n2n::{
    DiffusionMode, HandshakeNodeData, Magic, PeerSharing, ProposeVersionsRet, RefuseReason,
    Version, Versions,
};
use network_csm::peer_sharing;
use network_csm::peer_sharing::{Peer, PeerAddress};
use network_csm::peersharing::{same_address, unique_addresses, PeerSharingClient};
use network_csm::server::ServerBuilder;

fn node_data() -> HandshakeNodeData {
    HandshakeNodeData {
        magic: Magic(764824073),
        diffusion: DiffusionMode::InitiatorOnly,
        peer_sharing: PeerSharing::Enabled,
        query: false,
    }
}

#[test]
fn handshake_n2n_accept() {
    let mut client = HandshakeN2NClient::new(AsyncChannel::new(
        Direction::Initiator,
        handshake_n2n::State::Propose,
    ));
    let mut server = HandshakeN2NServer::new(AsyncChannel::new(
        Direction::Responder,
        handshake_n2n::State::Propose,
    ));
    let proposal = client
        .handshake(
            Version::V14,
            Magic(764824073),
            DiffusionMode::InitiatorOnly,
            PeerSharing::Enabled,
        )
        .expect("the handshake begins");
    match &proposal {
        handshake_n2n::Message::ProposeVersions(p) => {
            assert_eq!(p.0, vec![(Version::V14, node_data())])
        }
        _ => panic!("expected a proposal"),
    }
    assert_eq!(client.get_state(), handshake_n2n::State::Confirm);
    let answer = server
        .handshake(proposal, |p| {
            let (version, data) = p.0.into_iter().next().expect("one version");
            ProposeVersionsRet::AcceptVersion(version, data)
        })
        .ok()
        .expect("a proposal");
    assert_eq!(answer, handshake_n2n::Message::AcceptVersion(Version::V14, node_data()));
    assert_eq!(server.get_state(), handshake_n2n::State::Done);
    match client.handshake_reply(answer) {
        Ok(Accepted(version, data)) => {
            assert_eq!(version, Version::V14);
            assert_eq!(data, node_data());
        }
        Err(_) => panic!("expected the accepted version"),
    }
    assert_eq!(client.get_state(), handshake_n2n::State::Done);
    // the handshake cannot be opened twice
    assert!(client
        .handshake(Version::V14, Magic(1), DiffusionMode::InitiatorOnly, PeerSharing::Disabled)
        .is_none());
}

#[test]
fn handshake_n2n_refused() {
    let mut client = HandshakeN2NClient::new(AsyncChannel::new(
        Direction::Initiator,
        handshake_n2n::State::Propose,
    ));
    client
        .handshake(
            Version::V14,
            Magic(764824073),
            DiffusionMode::InitiatorOnly,
            PeerSharing::Enabled,
        )
        .expect("the handshake begins");
    let refusal = handshake_n2n::Message::Refuse(RefuseReason::VersionMismatch(Versions(vec![
        Version::V6,
        Version::V7,
    ])));
    match client.handshake_reply(refusal) {
        Err(Error::N2NConnectionRefused(RefuseReason::VersionMismatch(versions))) => {
            assert_eq!(versions, Versions(vec![Version::V6, Version::V7]))
        }
        _ => panic!("expected a refusal"),
    }
    assert_eq!(client.get_state(), handshake_n2n::State::Done);
    // nothing more is sent once the handshake is over
    assert!(client
        .handshake(Version::V14, Magic(764824073), DiffusionMode::InitiatorOnly, PeerSharing::Enabled)
        .is_none());
    let mut channel: AsyncChannel<handshake_n2n::State> =
        AsyncChannel::new(Direction::Initiator, handshake_n2n::State::Done);
    let again = handshake_n2n::Message::ProposeVersions(handshake_n2n::VersionProposal(vec![]));
    assert!(!channel.write_one(&again));
    assert_eq!(channel.get_state(), handshake_n2n::State::Done);
}

#[test]
fn handshake_replies_out_of_turn() {
    let mut client = HandshakeN2NClient::new(AsyncChannel::new(
        Direction::Initiator,
        handshake_n2n::State::Propose,
    ));
    let early = handshake_n2n::Message::AcceptVersion(Version::V14, node_data());
    match client.handshake_reply(early) {
        Err(Error::N2NHandshakeReplyError(MessageError::InvalidState { current, .. })) => {
            assert_eq!(current, handshake_n2n::State::Propose)
        }
        _ => panic!("expected an invalid state"),
    }
    assert_eq!(client.get_state(), handshake_n2n::State::Propose);
    let mut server = HandshakeN2NServer::new(AsyncChannel::new(
        Direction::Responder,
        handshake_n2n::State::Propose,
    ));
    let wrong = handshake_n2n::Message::AcceptVersion(Version::V14, node_data());
    let refuse = |_p| ProposeVersionsRet::Refuse(RefuseReason::VersionMismatch(Versions(vec![])));
    match server.handshake(wrong, refuse) {
        Err(ServerError::N2NHandshakeQueryError(MessageError::InvalidState { .. })) => {}
        _ => panic!("expected an invalid state"),
    }
    assert_eq!(server.get_state(), handshake_n2n::State::Propose);
}

#[test]
fn handshake_n2c_accept() {
    let mut client = HandshakeN2CClient::new(AsyncChannel::new(
        Direction::Initiator,
        handshake_n2c::State::Propose,
    ));
    let proposal = client.handshake(handshake_n2c::Version::V16, Magic(1)).expect("begins");
    assert!(matches!(proposal, handshake_n2c::Message::ProposeVersions(_)));
    let accept = handshake_n2c::Message::AcceptVersion(
        handshake_n2c::Version::V16,
        handshake_n2c::HandshakeNodeData { magic: Magic(1), query: false },
    );
    match client.handshake_reply(accept) {
        Ok(Accepted(version, data)) => {
            assert_eq!(version, handshake_n2c::Version::V16);
            assert_eq!(data, handshake_n2c::HandshakeNodeData { magic: Magic(1), query: false });
        }
        Err(_) => panic!("expected the accepted version"),
    }
    assert_eq!(client.get_state(), handshake_n2c::State::Done);
}

#[test]
fn handshake_query_reply_is_an_error() {
    let mut client = HandshakeN2NClient::new(AsyncChannel::new(
        Direction::Initiator,
        handshake_n2n::State::Propose,
    ));
    client
        .handshake(
            Version::V14,
            Magic(764824073),
            DiffusionMode::InitiatorOnly,
            PeerSharing::Enabled,
        )
        .expect("the handshake begins");
    let listed = handshake_n2n::VersionProposal(vec![(Version::V14, node_data())]);
    match client.handshake_reply(handshake_n2n::Message::QueryReply(listed.clone())) {
        Err(Error::N2NQueryReply(versions)) => assert_eq!(versions.0, listed.0),
        _ => panic!("expected the listed versions as an error"),
    }
    assert_eq!(client.get_state(), handshake_n2n::State::Done);

    let mut local = HandshakeN2CClient::new(AsyncChannel::new(
        Direction::Initiator,
        handshake_n2c::State::Propose,
    ));
    local.handshake(handshake_n2c::Version::V16, Magic(1)).expect("begins");
    let listed = handshake_n2c::VersionProposal(vec![]);
    match local.handshake_reply(handshake_n2c::Message::QueryReply(listed)) {
        Err(Error::N2CQueryReply(versions)) => assert!(versions.0.is_empty()),
        _ => panic!("expected the listed versions as an error"),
    }
    assert_eq!(local.get_state(), handshake_n2c::State::Done);
}

#[test]
fn chainsync_tip() {
    let mut client = ChainSyncClient::new_n2n(AsyncChannel::new(
        Direction::Initiator,
        chainsync_n2n::State::Idle,
    ));
    match client.get_tip() {
        Some(chainsync_n2n::Message::FindIntersect(points)) => {
            assert_eq!(points.0, vec![Point::Origin])
        }
        _ => panic!("expected a request"),
    }
    assert_eq!(client.get_state(), chainsync_n2n::State::Intersect);
    let tip = Tip { point: Point::Origin, block_number: 0 };
    let reply = chainsync_n2n::Message::IntersectionNotFound(tip.clone());
    assert_eq!(client.tip_reply(reply).ok(), Some(tip));
    assert_eq!(client.get_state(), chainsync_n2n::State::Idle);
    assert!(client.get_tip().is_some());
    let found = Tip { point: Point::BlockHeader { slot_nb: 9, hash: [7; 32] }, block_number: 4 };
    let reply = chainsync_n2n::Message::IntersectionFound(Point::Origin, found.clone());
    assert_eq!(client.tip_reply(reply).ok(), Some(found));
}

#[test]
fn chainsync_request_next() {
    let mut client = ChainSyncClient::new_n2c(AsyncChannel::new(
        Direction::Initiator,
        chainsync_n2c::State::default(),
    ));
    assert!(matches!(client.request_next(), Some(chainsync_n2n::Message::RequestNext)));
    assert!(client.request_next().is_none());
    assert!(matches!(client.next_reply(chainsync_n2n::Message::AwaitReply), Ok(None)));
    assert_eq!(client.get_state(), chainsync_n2n::State::MustReply);
    match client.next_reply(chainsync_n2n::Message::AwaitReply) {
        Err(MessageError::InvalidState { current, .. }) => {
            assert_eq!(current, chainsync_n2n::State::MustReply)
        }
        _ => panic!("expected an invalid state"),
    }
    let tip = Tip { point: Point::Origin, block_number: 3 };
    let forward = chainsync_n2n::Message::RollForward(CborChainsyncData(vec![1, 2]), tip.clone());
    match client.next_reply(forward) {
        Ok(Some(RequestNext::Forward(header, t))) => {
            assert_eq!(header.0, vec![1, 2]);
            assert_eq!(t, tip);
        }
        _ => panic!("expected a change"),
    }
    assert_eq!(client.get_state(), chainsync_n2n::State::Idle);
    assert!(client.request_next().is_some());
    let back = chainsync_n2n::Message::RollBackward(Point::Origin, tip.clone());
    assert!(matches!(client.next_reply(back), Ok(Some(RequestNext::Backward(Point::Origin, _)))));
    // no answer is expected while the conversation is idle
    let stray = chainsync_n2n::Message::RequestNext;
    assert!(matches!(client.next_reply(stray), Err(MessageError::InternalError)));
    assert_eq!(client.get_state(), chainsync_n2n::State::Idle);
}

#[test]
fn blockfetch_reply_without_request() {
    let mut client =
        BlockFetchClient::new(AsyncChannel::new(Direction::Initiator, blockfetch::State::Idle));
    match client.range_reply(blockfetch::Message::NoBlocks) {
        Err(MessageError::InvalidState { current, msg }) => {
            assert_eq!(current, blockfetch::State::Idle);
            assert!(matches!(msg, blockfetch::Message::NoBlocks));
        }
        _ => panic!("expected an invalid state"),
    }
    assert_eq!(client.get_state(), blockfetch::State::Idle);
    // a message that is allowed, but is no answer to a request
    assert!(matches!(
        client.range_reply(blockfetch::Message::ClientDone),
        Err(MessageError::InternalError)
    ));
    assert_eq!(client.get_state(), blockfetch::State::Idle);
}

#[test]
fn blockfetch_empty_range() {
    let mut client =
        BlockFetchClient::new(AsyncChannel::new(Direction::Initiator, blockfetch::State::Idle));
    let p1 = Point::BlockHeader { slot_nb: 1, hash: [1; 32] };
    let p2 = Point::BlockHeader { slot_nb: 2, hash: [2; 32] };
    match client.request_range(p1.clone(), p2.clone()) {
        Some(blockfetch::Message::RequestRange(a, b)) => assert_eq!((a, b), (p1, p2)),
        _ => panic!("expected a request"),
    }
    assert_eq!(client.get_state(), blockfetch::State::Busy);
    assert!(matches!(
        client.range_reply(blockfetch::Message::NoBlocks),
        Ok(blockfetch::RequestRangeRet::NoBlocks)
    ));
    assert_eq!(client.get_state(), blockfetch::State::Idle);
}

#[test]
fn blockfetch_streaming() {
    let mut client =
        BlockFetchClient::new(AsyncChannel::new(Direction::Initiator, blockfetch::State::Idle));
    assert!(client.request_range(Point::Origin, Point::Origin).is_some());
    assert!(client.request_range(Point::Origin, Point::Origin).is_none());
    assert!(matches!(
        client.range_reply(blockfetch::Message::StartBatch),
        Ok(blockfetch::RequestRangeRet::StartBatch)
    ));
    let mut blocks = Vec::new();
    for b in [vec![1u8], vec![2, 2], vec![3, 3, 3]] {
        match client.next(blockfetch::Message::Block(CborBlockData(b))) {
            Ok(Some(block)) => blocks.push(block.0),
            _ => panic!("expected a block"),
        }
        assert_eq!(client.get_state(), blockfetch::State::Streaming);
    }
    assert_eq!(blocks, vec![vec![1u8], vec![2, 2], vec![3, 3, 3]]);
    assert!(matches!(client.next(blockfetch::Message::NoBlocks), Err(MessageError::InvalidState { .. })));
    assert!(matches!(client.next(blockfetch::Message::BatchDone), Ok(None)));
    assert_eq!(client.get_state(), blockfetch::State::Idle);
    assert!(matches!(
        client.next(blockfetch::Message::BatchDone),
        Err(MessageError::InvalidState { current: blockfetch::State::Idle, .. })
    ));
    assert!(matches!(
        client.next(blockfetch::Message::ClientDone),
        Err(MessageError::InternalError)
    ));
}

#[test]
fn blockfetch_server_side() {
    let mut server =
        BlockFetchServer::new(AsyncChannel::new(Direction::Responder, blockfetch::State::Idle));
    assert!(server.range_found(true).is_none());
    let query = blockfetch::Message::RequestRange(Point::Origin, Point::Origin);
    assert!(matches!(
        server.idle(query),
        Ok(blockfetch::OnIdleMsg::RequestRange(Point::Origin, Point::Origin))
    ));
    assert_eq!(server.get_state(), blockfetch::State::Busy);
    assert!(matches!(server.range_found(false), Some(blockfetch::Message::NoBlocks)));
    assert_eq!(server.get_state(), blockfetch::State::Idle);
    let query = blockfetch::Message::RequestRange(Point::Origin, Point::Origin);
    assert!(server.idle(query).is_ok());
    assert!(matches!(server.range_found(true), Some(blockfetch::Message::StartBatch)));
    assert_eq!(server.get_state(), blockfetch::State::Streaming);
    assert!(matches!(
        server.idle(blockfetch::Message::ClientDone),
        Err(MessageError::InvalidState { .. })
    ));
}

#[test]
fn peer_sharing_request() {
    let mut client =
        PeerSharingClient::new(AsyncChannel::new(Direction::Initiator, peer_sharing::State::Idle));
    assert!(matches!(client.request_once(32), Some(peer_sharing::Message::ShareRequest(32))));
    assert_eq!(client.get_state(), peer_sharing::State::Busy);
    let peers = vec![Peer::IPV4(0x7F000001, 3001), Peer::IPV6(0x20010db8, 0, 0, 1, 3001)];
    let found = client.peers_reply(peer_sharing::Message::SharePeers(peers)).ok().expect("peers");
    assert_eq!(
        found,
        vec![
            PeerAddress::V4([127, 0, 0, 1], 3001),
            PeerAddress::V6([0x2001, 0x0db8, 0, 0, 0, 0, 0, 1], 3001),
        ]
    );
    assert_eq!(client.get_state(), peer_sharing::State::Idle);
    assert!(matches!(
        client.peers_reply(peer_sharing::Message::SharePeers(vec![])),
        Err(MessageError::InvalidState { .. })
    ));
}

#[test]
fn peer_sharing_keeps_each_address_once() {
    let a = Peer::IPV4(0x0a000001, 1);
    let b = Peer::IPV4(0x0a000001, 2);
    let c = Peer::IPV6(1, 2, 3, 4, 1);
    let peers =
        vec![a.clone(), b.clone(), a.clone(), c.clone(), b.clone(), c.clone(), a.clone()];
    assert_eq!(
        unique_addresses(&peers),
        vec![a.to_socketaddr(), b.to_socketaddr(), c.to_socketaddr()]
    );
    assert_eq!(unique_addresses(&vec![]), vec![]);
    assert!(same_address(&a.to_socketaddr(), &a.to_socketaddr()));
    assert!(!same_address(&a.to_socketaddr(), &b.to_socketaddr()));
    assert!(!same_address(&a.to_socketaddr(), &c.to_socketaddr()));
    assert!(!same_address(
        &PeerAddress::V6([0, 0, 0, 0, 0, 0, 0, 1], 1),
        &PeerAddress::V6([0, 0, 0, 0, 0, 0, 1, 1], 1)
    ));
    let mut client =
        PeerSharingClient::new(AsyncChannel::new(Direction::Initiator, peer_sharing::State::Idle));
    let mut all = Vec::new();
    for _ in 0..3 {
        assert!(client.request_once(32).is_some());
        let found = client
            .peers_reply(peer_sharing::Message::SharePeers(peers.clone()))
            .ok()
            .expect("peers");
        all.extend(found);
    }
    assert_eq!(all.len(), 9);
}

#[test]
fn client_builder() {
    let mut b = ClientBuilder::new();
    let chainsync = b.with_n2n_chainsync().ok().expect("free");
    assert_eq!(chainsync.get_state(), chainsync_n2n::State::Idle);
    assert!(b.with_n2n_chainsync().is_err());
    assert!(b.with_blockfetch().is_ok());
    assert!(b.with_n2c_chainsync().is_ok());
    let (handshake, channels, sharing) = b.build_n2n();
    assert_eq!(handshake.get_state(), handshake_n2n::State::Propose);
    assert_eq!(sharing, PeerSharing::Disabled);
    assert!(channels.has(Id::new(0)));
    assert!(channels.has(Id::new(2)));
    assert!(channels.has(Id::new(3)));
    assert!(channels.has(Id::new(5)));
    assert!(!channels.has(Id::new(10)));
    let map = channels.finalize();
    assert_eq!(map.len(), 4);
    let mut b = ClientBuilder::new();
    assert!(b.with_peersharing().is_ok());
    assert!(b.with_peersharing().is_err());
    let (_, channels, sharing) = b.build_n2n();
    assert_eq!(sharing, PeerSharing::Enabled);
    assert!(channels.has(Id::new(10)));
    let (handshake, channels) = ClientBuilder::new().build_n2c();
    assert_eq!(handshake.get_state(), handshake_n2c::State::Propose);
    assert_eq!(channels.finalize().len(), 1);
}

#[test]
fn duplicate_registrations_name_the_channel() {
    let mut server = ServerBuilder::new();
    assert!(server.with_n2c_chainsync().is_ok());
    assert_eq!(server.with_n2c_chainsync().err().map(|e| e.0.as_int()), Some(5));
    assert!(server.with_n2n_chainsync().is_ok());
    assert_eq!(server.with_n2n_chainsync().err().map(|e| e.0.as_int()), Some(2));
    assert!(server.with_blockfetch().is_ok());
    assert_eq!(server.with_blockfetch().err().map(|e| e.0.as_int()), Some(3));
    let mut client = ClientBuilder::new();
    assert!(client.with_n2n_chainsync().is_ok());
    assert_eq!(client.with_n2n_chainsync().err().map(|e| e.0.as_int()), Some(2));
    assert!(client.with_n2c_chainsync().is_ok());
    assert_eq!(client.with_n2c_chainsync().err().map(|e| e.0.as_int()), Some(5));
    assert!(client.with_blockfetch().is_ok());
    assert_eq!(client.with_blockfetch().err().map(|e| e.0.as_int()), Some(3));
    assert!(client.with_peersharing().is_ok());
    assert_eq!(client.with_peersharing().err().map(|e| e.0.as_int()), Some(10));
}

#[test]
fn server_handshake_out_of_turn() {
    // while the server is to confirm, a message that is allowed then is no
    // proposal, and one that is not allowed is an invalid state
    let refuse = |_p| ProposeVersionsRet::Refuse(RefuseReason::VersionMismatch(Versions(vec![])));
    let mut server = HandshakeN2NServer::new(AsyncChannel::new(
        Direction::Responder,
        handshake_n2n::State::Confirm,
    ));
    let accept = handshake_n2n::Message::AcceptVersion(Version::V14, node_data());
    match server.handshake(accept, refuse) {
        Err(ServerError::N2NHandshakeQueryError(MessageError::InternalError)) => {}
        _ => panic!("expected an internal error"),
    }
    assert_eq!(server.get_state(), handshake_n2n::State::Confirm);
    let proposal = handshake_n2n::Message::ProposeVersions(handshake_n2n::VersionProposal(vec![]));
    match server.handshake(proposal, refuse) {
        Err(ServerError::N2NHandshakeQueryError(MessageError::InvalidState { current, .. })) => {
            assert_eq!(current, handshake_n2n::State::Confirm)
        }
        _ => panic!("expected an invalid state"),
    }
    let mut done = HandshakeN2NServer::new(AsyncChannel::new(
        Direction::Responder,
        handshake_n2n::State::Done,
    ));
    let late = handshake_n2n::Message::ProposeVersions(handshake_n2n::VersionProposal(vec![]));
    match done.handshake(late, refuse) {
        Err(ServerError::N2NHandshakeQueryError(MessageError::InvalidState { current, .. })) => {
            assert_eq!(current, handshake_n2n::State::Done)
        }
        _ => panic!("expected an invalid state"),
    }
}

#[test]
fn server_builder() {
    let mut b = ServerBuilder::new();
    assert!(b.with_n2n_chainsync().is_ok());
    assert!(b.with_n2n_chainsync().is_err());
    assert!(b.with_n2c_chainsync().is_ok());
    assert!(b.with_blockfetch().is_ok());
    let (handshake, channels) = b.accept_handshake_n2n();
    assert_eq!(handshake.get_state(), handshake_n2n::State::Propose);
    let map = channels.finalize();
    let ids: Vec<u16> = map.iterate().iter().map(|(id, _)| id.as_int()).collect();
    assert_eq!(ids, vec![0, 2, 3, 5]);
    for (_, ends) in map.iterate() {
        assert!(ends.has_direction(Direction::Responder));
        assert!(!ends.has_direction(Direction::Initiator));
    }
    let (handshake, _) = ServerBuilder::new().accept_handshake_n2c();
    assert_eq!(handshake.get_state(), handshake_n2c::State::Propose);
}
