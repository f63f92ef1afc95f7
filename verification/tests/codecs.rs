use network_csm::blockfetch::CborBlockData;
use network_csm::blockfetch::Message as BlockM;
use network_csm::cbor::{Cbor, CborCodec, Undecodable};
use network_csm::chainsync_n2n::Message as ChainM;
use network_csm::chainsync_n2n::{CborChainsyncData, Point, Points, Tip};
use network_csm::handshake_n2c;
use network_csm::handshake_n2c::Message as ShakeCM;
use network_csm::handshake_n2n::Message as ShakeM;
use network_csm::handshake_n2n::{
    DiffusionMode, HandshakeNodeData, Magic, PeerSharing, RefuseReason, Version, VersionProposal,
    Versions,
};
use network_csm::keepalive::Message as KeepM;
use network_csm::local_state_query;
use network_csm::local_tx_monitor;
use network_csm::peer_sharing::{Message as PeerM, Peer};
use network_csm::tx_submission;

fn same(a: &Cbor, b: &Cbor) -> bool {
    format!("{:?}", a) == format!("{:?}", b)
}

fn array(items: Vec<Cbor>) -> Cbor {
    Cbor::Array(items)
}

fn n(v: u64) -> Cbor {
    Cbor::Positive(v)
}

#[test]
fn point_and_tip_trees() {
    assert!(same(&Point::Origin.to_cbor(), &array(vec![])));
    let p = Point::BlockHeader { slot_nb: 42, hash: [9; 32] };
    assert!(same(&p.to_cbor(), &array(vec![n(42), Cbor::Bytes(vec![9; 32])])));
    assert_eq!(Point::from_cbor(&p.to_cbor()), Ok(p.clone()));
    assert_eq!(Point::from_cbor(&array(vec![])), Ok(Point::Origin));
    assert_eq!(Point::from_cbor(&array(vec![n(1)])), Err(Undecodable));
    assert_eq!(Point::from_cbor(&array(vec![n(1), Cbor::Bytes(vec![0; 31])])), Err(Undecodable));
    assert_eq!(Point::from_cbor(&array(vec![Cbor::Bool(true), Cbor::Bytes(vec![0; 32])])), Err(Undecodable));
    assert_eq!(Point::from_cbor(&n(0)), Err(Undecodable));
    let tip = Tip { point: p.clone(), block_number: 7 };
    assert!(same(&tip.to_cbor(), &array(vec![p.to_cbor(), n(7)])));
    assert_eq!(Tip::from_cbor(&tip.to_cbor()), Ok(tip));
    assert_eq!(Tip::from_cbor(&array(vec![array(vec![])])), Err(Undecodable));
}

#[test]
fn chainsync_message_trees() {
    let tip = Tip { point: Point::Origin, block_number: 0 };
    assert!(same(&ChainM::RequestNext.to_cbor(), &array(vec![n(0)])));
    assert!(same(&ChainM::AwaitReply.to_cbor(), &array(vec![n(1)])));
    let forward = ChainM::RollForward(CborChainsyncData(vec![0x80]), tip.clone());
    assert!(same(
        &forward.to_cbor(),
        &array(vec![n(2), Cbor::Tag(24, Box::new(Cbor::Bytes(vec![0x80]))), tip.to_cbor()])
    ));
    let find = ChainM::FindIntersect(Points(vec![Point::Origin]));
    assert!(same(&find.to_cbor(), &array(vec![n(4), array(vec![array(vec![])])])));
    assert!(same(&ChainM::IntersectionNotFound(tip.clone()).to_cbor(), &array(vec![n(6), tip.to_cbor()])));
    assert!(same(&ChainM::SyncDone.to_cbor(), &array(vec![n(7)])));
    for m in [
        ChainM::RequestNext,
        ChainM::AwaitReply,
        forward,
        ChainM::RollBackward(Point::Origin, tip.clone()),
        find,
        ChainM::IntersectionFound(Point::BlockHeader { slot_nb: 1, hash: [3; 32] }, tip.clone()),
        ChainM::IntersectionNotFound(tip.clone()),
        ChainM::SyncDone,
    ] {
        let back = ChainM::from_cbor(&m.to_cbor()).ok().expect("readable");
        assert!(same(&back.to_cbor(), &m.to_cbor()));
    }
    assert!(ChainM::from_cbor(&array(vec![n(8)])).is_err());
    assert!(ChainM::from_cbor(&array(vec![])).is_err());
    assert!(ChainM::from_cbor(&array(vec![n(0), n(0)])).is_err());
    assert!(ChainM::from_cbor(&array(vec![n(6)])).is_err());
    assert!(ChainM::from_cbor(&array(vec![Cbor::Bool(false)])).is_err());
    assert!(ChainM::from_cbor(&n(0)).is_err());
    assert!(ChainM::from_cbor(&array(vec![n(2), Cbor::Bytes(vec![]), tip.to_cbor()])).is_err());
    assert!(ChainM::from_cbor(&array(vec![n(2), Cbor::Tag(25, Box::new(Cbor::Bytes(vec![]))), tip.to_cbor()])).is_err());
}

#[test]
fn blockfetch_message_trees() {
    assert!(same(
        &BlockM::RequestRange(Point::Origin, Point::Origin).to_cbor(),
        &array(vec![n(0), array(vec![]), array(vec![])])
    ));
    assert!(same(&BlockM::ClientDone.to_cbor(), &array(vec![n(1)])));
    assert!(same(&BlockM::StartBatch.to_cbor(), &array(vec![n(2)])));
    assert!(same(&BlockM::NoBlocks.to_cbor(), &array(vec![n(3)])));
    assert!(same(
        &BlockM::Block(CborBlockData(vec![1, 2])).to_cbor(),
        &array(vec![n(4), Cbor::Tag(24, Box::new(Cbor::Bytes(vec![1, 2])))])
    ));
    assert!(same(&BlockM::BatchDone.to_cbor(), &array(vec![n(5)])));
    match BlockM::from_cbor(&array(vec![n(4), Cbor::Tag(24, Box::new(Cbor::Bytes(vec![5])))])) {
        Ok(BlockM::Block(b)) => assert_eq!(b.0, vec![5]),
        _ => panic!("expected a block"),
    }
    assert!(matches!(BlockM::from_cbor(&array(vec![n(3)])), Ok(BlockM::NoBlocks)));
    assert!(BlockM::from_cbor(&array(vec![n(3), n(0)])).is_err());
    assert!(BlockM::from_cbor(&array(vec![n(6)])).is_err());
}

#[test]
fn handshake_message_trees() {
    let data = HandshakeNodeData {
        magic: Magic(764824073),
        diffusion: DiffusionMode::InitiatorOnly,
        peer_sharing: PeerSharing::Enabled,
        query: false,
    };
    let data_tree = || array(vec![n(764824073), Cbor::Bool(false), n(1), Cbor::Bool(false)]);
    assert!(same(&data.to_cbor(), &data_tree()));
    let proposal = VersionProposal(vec![(Version::V14, data.clone()), (Version::V13, data.clone())]);
    let tree = ShakeM::ProposeVersions(proposal.clone()).to_cbor();
    assert!(same(
        &tree,
        &array(vec![n(0), Cbor::Entries(vec![(n(14), data_tree()), (n(13), data_tree())])])
    ));
    assert_eq!(ShakeM::from_cbor(&tree), Ok(ShakeM::ProposeVersions(proposal.clone())));
    assert!(same(&proposal.propose_data(), &tree));
    let accept = ShakeM::AcceptVersion(Version::V14, data.clone());
    assert!(same(&accept.to_cbor(), &array(vec![n(1), n(14), data_tree()])));
    assert_eq!(ShakeM::from_cbor(&accept.to_cbor()), Ok(accept));
    let refuse = ShakeM::Refuse(RefuseReason::VersionMismatch(Versions(vec![Version::V6, Version::V7])));
    assert!(same(&refuse.to_cbor(), &array(vec![n(2), array(vec![n(0), array(vec![n(6), n(7)])])])));
    assert_eq!(ShakeM::from_cbor(&refuse.to_cbor()), Ok(refuse));
    let refused = ShakeM::Refuse(RefuseReason::Refused(Version::V9, "no".to_string()));
    assert!(same(
        &refused.to_cbor(),
        &array(vec![n(2), array(vec![n(2), n(9), Cbor::Text("no".to_string())])])
    ));
    assert_eq!(ShakeM::from_cbor(&refused.to_cbor()), Ok(refused));
    // an unknown version, a setting out of range, a wrong kind
    assert!(ShakeM::from_cbor(&array(vec![n(1), n(12), data_tree()])).is_err());
    assert!(ShakeM::from_cbor(&array(vec![
        n(1),
        n(14),
        array(vec![n(1), Cbor::Bool(false), n(2), Cbor::Bool(false)])
    ]))
    .is_err());
    assert!(ShakeM::from_cbor(&array(vec![n(0), array(vec![])])).is_err());
    assert_eq!(Version::from_cbor(&n(14)), Ok(Version::V14));
    assert_eq!(Version::from_cbor(&n(15)), Err(Undecodable));
    assert_eq!(DiffusionMode::from_cbor(&Cbor::Bool(true)), Ok(DiffusionMode::InitiatorAndResponder));
    assert_eq!(DiffusionMode::from_cbor(&n(1)), Err(Undecodable));
    assert_eq!(PeerSharing::from_cbor(&n(0)), Ok(PeerSharing::Disabled));
    assert_eq!(PeerSharing::from_cbor(&Cbor::Bool(false)), Err(Undecodable));
}

#[test]
fn handshake_n2c_message_trees() {
    let data = handshake_n2c::HandshakeNodeData { magic: Magic(1), query: true };
    let accept = ShakeCM::AcceptVersion(handshake_n2c::Version::V18, data.clone());
    assert!(same(&accept.to_cbor(), &array(vec![n(1), n(32786), array(vec![n(1), Cbor::Bool(true)])])));
    assert_eq!(ShakeCM::from_cbor(&accept.to_cbor()), Ok(accept));
    assert!(ShakeCM::from_cbor(&array(vec![n(1), n(14), array(vec![n(1), Cbor::Bool(true)])])).is_err());
}

#[test]
fn keepalive_message_trees() {
    assert!(same(&KeepM::KeepAlive(0xffff).to_cbor(), &array(vec![n(0), n(0xffff)])));
    assert!(same(&KeepM::KeepAliveResponse(1).to_cbor(), &array(vec![n(1), n(1)])));
    assert!(same(&KeepM::Done.to_cbor(), &array(vec![n(2)])));
    assert!(matches!(KeepM::from_cbor(&array(vec![n(0), n(7)])), Ok(KeepM::KeepAlive(7))));
    assert!(KeepM::from_cbor(&array(vec![n(0), n(0x10000)])).is_err());
    assert!(KeepM::from_cbor(&array(vec![n(3)])).is_err());
}

#[test]
fn peer_sharing_message_trees() {
    let peers = vec![Peer::IPV4(0x7F000001, 3001), Peer::IPV6(1, 2, 3, 4, 5)];
    let tree = PeerM::SharePeers(peers).to_cbor();
    assert!(same(
        &tree,
        &array(vec![
            n(1),
            array(vec![
                array(vec![n(0), n(0x7F000001), n(3001)]),
                array(vec![n(1), n(1), n(2), n(3), n(4), n(5)]),
            ])
        ])
    ));
    match PeerM::from_cbor(&tree) {
        Ok(PeerM::SharePeers(back)) => assert_eq!(back.len(), 2),
        _ => panic!("expected peers"),
    }
    assert!(matches!(PeerM::from_cbor(&array(vec![n(0), n(32)])), Ok(PeerM::ShareRequest(32))));
    assert!(PeerM::from_cbor(&array(vec![n(0), n(256)])).is_err());
    assert!(PeerM::from_cbor(&array(vec![n(1), array(vec![array(vec![n(0), n(1), n(65536)])])])).is_err());
    assert!(PeerM::from_cbor(&array(vec![n(1), array(vec![array(vec![n(2), n(1), n(1)])])])).is_err());
}

#[test]
fn other_message_trees() {
    {
        let m = local_tx_monitor::Message::NextTx;
        assert!(same(&m.to_cbor(), &array(vec![n(5)])));
        assert!(same(&local_tx_monitor::Message::Release.to_cbor(), &array(vec![n(3)])));
        assert!(local_tx_monitor::Message::from_cbor(&array(vec![n(4)])).is_err());
        let measures = local_tx_monitor::Measures(vec![("a".to_string(), (1, 2))]);
        let reply = local_tx_monitor::Message::ReplyGetMeasures(9, measures);
        assert!(same(
            &reply.to_cbor(),
            &array(vec![
                n(12),
                n(9),
                Cbor::Entries(vec![(Cbor::Text("a".to_string()), array(vec![n(1), n(2)]))])
            ])
        ));
        assert!(local_tx_monitor::Message::from_cbor(&reply.to_cbor()).is_ok());
        let sizes = local_tx_monitor::Sizes { size1: 1, size2: 2, size3: 3 };
        assert!(same(&sizes.to_cbor(), &array(vec![n(1), n(2), n(3)])));
    }
    {
        let query = local_state_query::Message::Query(local_state_query::CborData(array(vec![
            n(1),
            Cbor::Null,
        ])));
        assert!(same(&query.to_cbor(), &array(vec![n(3), array(vec![n(1), Cbor::Null])])));
        assert!(local_state_query::Message::from_cbor(&query.to_cbor()).is_ok());
        let failure =
            local_state_query::Message::Failure(local_state_query::Failure::PointNotOnChain);
        assert!(same(&failure.to_cbor(), &array(vec![n(2), n(1)])));
        assert!(local_state_query::Message::from_cbor(&array(vec![n(2), n(2)])).is_err());
    }
    {
        let ids = tx_submission::Message::ReplyTxIds(vec![tx_submission::TxIdAndSize {
            id: tx_submission::TxId(vec![1, 2]),
            size: 10,
        }]);
        assert!(same(
            &ids.to_cbor(),
            &array(vec![n(2), array(vec![array(vec![Cbor::Bytes(vec![1, 2]), n(10)])])])
        ));
        assert!(tx_submission::Message::from_cbor(&ids.to_cbor()).is_ok());
        let ask = tx_submission::Message::RequestTxIds(true, 1, 2);
        assert!(same(&ask.to_cbor(), &array(vec![n(1), Cbor::Bool(true), n(1), n(2)])));
    }
}

#[test]
fn tree_copies() {
    let tree = array(vec![
        n(1),
        Cbor::Negative(2),
        Cbor::Bytes(vec![1, 2]),
        Cbor::Text("t".to_string()),
        Cbor::Entries(vec![(n(0), Cbor::Tag(24, Box::new(Cbor::Bool(true))))]),
        Cbor::Null,
        Cbor::Undefined,
        Cbor::Byte(3),
        Cbor::Float(16, 0x3c00),
    ]);
    assert!(same(&tree.duplicate(), &tree));
    assert!(same(&tree.clone(), &tree));
}
