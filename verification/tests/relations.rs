use network_csm::frame::Direction;
use network_csm::protocol::Protocol;
use network_csm::transitions::derive_network_state;

#[test]
fn chainsync_n2n_relation() {
    let states = vec![network_csm::chainsync_n2n::State::Idle, network_csm::chainsync_n2n::State::Done, network_csm::chainsync_n2n::State::Intersect, network_csm::chainsync_n2n::State::CanAwait, network_csm::chainsync_n2n::State::MustReply];
    let messages = vec![
        network_csm::chainsync_n2n::Message::RequestNext,
        network_csm::chainsync_n2n::Message::AwaitReply,
        network_csm::chainsync_n2n::Message::RollForward(network_csm::chainsync_n2n::CborChainsyncData(vec![]), network_csm::chainsync_n2n::Tip { point: network_csm::chainsync_n2n::Point::Origin, block_number: 0 }),
        network_csm::chainsync_n2n::Message::RollBackward(network_csm::chainsync_n2n::Point::Origin, network_csm::chainsync_n2n::Tip { point: network_csm::chainsync_n2n::Point::Origin, block_number: 0 }),
        network_csm::chainsync_n2n::Message::FindIntersect(network_csm::chainsync_n2n::Points(vec![])),
        network_csm::chainsync_n2n::Message::IntersectionFound(network_csm::chainsync_n2n::Point::Origin, network_csm::chainsync_n2n::Tip { point: network_csm::chainsync_n2n::Point::Origin, block_number: 0 }),
        network_csm::chainsync_n2n::Message::IntersectionNotFound(network_csm::chainsync_n2n::Tip { point: network_csm::chainsync_n2n::Point::Origin, block_number: 0 }),
        network_csm::chainsync_n2n::Message::SyncDone,
    ];
    let (declared, clients) = network_csm::chainsync_n2n::declaration();
    let expected: Vec<(usize, usize, usize)> = vec![
        (0, 0, 3),
        (3, 1, 4),
        (3, 2, 0),
        (4, 2, 0),
        (3, 3, 0),
        (4, 3, 0),
        (0, 4, 2),
        (2, 5, 0),
        (2, 6, 0),
        (0, 7, 1),
    ];
    let mut allowed = 0;
    for (si, state) in states.iter().enumerate() {
        assert_eq!(state.index(), si);
        let mut leaves = false;
        for (mi, message) in messages.iter().enumerate() {
            assert_eq!(message.index(), mi);
            let next = state.transition(message);
            let wanted = expected.iter().find(|t| t.0 == si && t.1 == mi).map(|t| t.2);
            assert_eq!(next.map(|s| s.index()), wanted);
            assert_eq!(declared.transition(si, mi), wanted);
            assert_eq!(message.can_transition(*state).map(|s| s.index()), wanted);
            if next.is_some() {
                allowed += 1;
                leaves = true;
                assert_eq!(state.direction(), Some(message.sender()));
            }
        }
        assert_eq!(state.direction().is_none(), !leaves);
    }
    assert_eq!(allowed, expected.len());
    assert_eq!(clients, vec![0, 4, 7]);
    let derived = derive_network_state(&declared, messages.len(), &clients).ok().expect("derivable");
    assert_eq!(derived.client.len(), 3);
    assert_eq!(derived.server.iter().map(|(s, _)| *s).collect::<Vec<_>>(), vec![0]);
    assert_eq!(network_csm::chainsync_n2n::State::default().index(), 0);
    assert!(matches!(network_csm::chainsync_n2n::State::default().direction(), Some(Direction::Initiator)));
}

#[test]
fn blockfetch_relation() {
    let states = vec![network_csm::blockfetch::State::Idle, network_csm::blockfetch::State::Done, network_csm::blockfetch::State::Busy, network_csm::blockfetch::State::Streaming];
    let messages = vec![
        network_csm::blockfetch::Message::RequestRange(network_csm::chainsync_n2n::Point::Origin, network_csm::chainsync_n2n::Point::Origin),
        network_csm::blockfetch::Message::ClientDone,
        network_csm::blockfetch::Message::StartBatch,
        network_csm::blockfetch::Message::NoBlocks,
        network_csm::blockfetch::Message::Block(network_csm::blockfetch::CborBlockData(vec![])),
        network_csm::blockfetch::Message::BatchDone,
    ];
    let (declared, clients) = network_csm::blockfetch::declaration();
    let expected: Vec<(usize, usize, usize)> = vec![
        (0, 0, 2),
        (0, 1, 1),
        (2, 3, 0),
        (2, 2, 3),
        (3, 4, 3),
        (3, 5, 0),
    ];
    let mut allowed = 0;
    for (si, state) in states.iter().enumerate() {
        assert_eq!(state.index(), si);
        let mut leaves = false;
        for (mi, message) in messages.iter().enumerate() {
            assert_eq!(message.index(), mi);
            let next = state.transition(message);
            let wanted = expected.iter().find(|t| t.0 == si && t.1 == mi).map(|t| t.2);
            assert_eq!(next.map(|s| s.index()), wanted);
            assert_eq!(declared.transition(si, mi), wanted);
            assert_eq!(message.can_transition(*state).map(|s| s.index()), wanted);
            if next.is_some() {
                allowed += 1;
                leaves = true;
                assert_eq!(state.direction(), Some(message.sender()));
            }
        }
        assert_eq!(state.direction().is_none(), !leaves);
    }
    assert_eq!(allowed, expected.len());
    assert_eq!(clients, vec![0, 1]);
    let derived = derive_network_state(&declared, messages.len(), &clients).ok().expect("derivable");
    assert_eq!(derived.client.len(), 2);
    assert_eq!(derived.server.iter().map(|(s, _)| *s).collect::<Vec<_>>(), vec![0]);
    assert_eq!(network_csm::blockfetch::State::default().index(), 0);
    assert!(matches!(network_csm::blockfetch::State::default().direction(), Some(Direction::Initiator)));
}

#[test]
fn handshake_n2n_relation() {
    let states = vec![network_csm::handshake_n2n::State::Propose, network_csm::handshake_n2n::State::Confirm, network_csm::handshake_n2n::State::Done];
    let messages = vec![
        network_csm::handshake_n2n::Message::ProposeVersions(network_csm::handshake_n2n::VersionProposal(vec![])),
        network_csm::handshake_n2n::Message::AcceptVersion(network_csm::handshake_n2n::Version::V14, network_csm::handshake_n2n::HandshakeNodeData { magic: network_csm::handshake_n2n::Magic(1), diffusion: network_csm::handshake_n2n::DiffusionMode::InitiatorOnly, peer_sharing: network_csm::handshake_n2n::PeerSharing::Disabled, query: false }),
        network_csm::handshake_n2n::Message::Refuse(network_csm::handshake_n2n::RefuseReason::VersionMismatch(network_csm::handshake_n2n::Versions(vec![]))),
        network_csm::handshake_n2n::Message::QueryReply(network_csm::handshake_n2n::VersionProposal(vec![])),
    ];
    let (declared, clients) = network_csm::handshake_n2n::declaration();
    let expected: Vec<(usize, usize, usize)> = vec![
        (0, 0, 1),
        (1, 1, 2),
        (1, 2, 2),
        (1, 3, 2),
    ];
    let mut allowed = 0;
    for (si, state) in states.iter().enumerate() {
        assert_eq!(state.index(), si);
        let mut leaves = false;
        for (mi, message) in messages.iter().enumerate() {
            assert_eq!(message.index(), mi);
            let next = state.transition(message);
            let wanted = expected.iter().find(|t| t.0 == si && t.1 == mi).map(|t| t.2);
            assert_eq!(next.map(|s| s.index()), wanted);
            assert_eq!(declared.transition(si, mi), wanted);
            assert_eq!(message.can_transition(*state).map(|s| s.index()), wanted);
            if next.is_some() {
                allowed += 1;
                leaves = true;
                assert_eq!(state.direction(), Some(message.sender()));
            }
        }
        assert_eq!(state.direction().is_none(), !leaves);
    }
    assert_eq!(allowed, expected.len());
    assert_eq!(clients, vec![0]);
    let derived = derive_network_state(&declared, messages.len(), &clients).ok().expect("derivable");
    assert_eq!(derived.client.len(), 1);
    assert_eq!(derived.server.iter().map(|(s, _)| *s).collect::<Vec<_>>(), vec![0]);
    assert_eq!(network_csm::handshake_n2n::State::default().index(), 0);
    assert!(matches!(network_csm::handshake_n2n::State::default().direction(), Some(Direction::Initiator)));
}

#[test]
fn handshake_n2c_relation() {
    let states = vec![network_csm::handshake_n2c::State::Propose, network_csm::handshake_n2c::State::Confirm, network_csm::handshake_n2c::State::Done];
    let messages = vec![
        network_csm::handshake_n2c::Message::ProposeVersions(network_csm::handshake_n2c::VersionProposal(vec![])),
        network_csm::handshake_n2c::Message::AcceptVersion(network_csm::handshake_n2c::Version::V16, network_csm::handshake_n2c::HandshakeNodeData { magic: network_csm::handshake_n2n::Magic(1), query: false }),
        network_csm::handshake_n2c::Message::Refuse(network_csm::handshake_n2n::RefuseReason::VersionMismatch(network_csm::handshake_n2n::Versions(vec![]))),
        network_csm::handshake_n2c::Message::QueryReply(network_csm::handshake_n2c::VersionProposal(vec![])),
    ];
    let (declared, clients) = network_csm::handshake_n2c::declaration();
    let expected: Vec<(usize, usize, usize)> = vec![
        (0, 0, 1),
        (1, 1, 2),
        (1, 2, 2),
        (1, 3, 2),
    ];
    let mut allowed = 0;
    for (si, state) in states.iter().enumerate() {
        assert_eq!(state.index(), si);
        let mut leaves = false;
        for (mi, message) in messages.iter().enumerate() {
            assert_eq!(message.index(), mi);
            let next = state.transition(message);
            let wanted = expected.iter().find(|t| t.0 == si && t.1 == mi).map(|t| t.2);
            assert_eq!(next.map(|s| s.index()), wanted);
            assert_eq!(declared.transition(si, mi), wanted);
            assert_eq!(message.can_transition(*state).map(|s| s.index()), wanted);
            if next.is_some() {
                allowed += 1;
                leaves = true;
                assert_eq!(state.direction(), Some(message.sender()));
            }
        }
        assert_eq!(state.direction().is_none(), !leaves);
    }
    assert_eq!(allowed, expected.len());
    assert_eq!(clients, vec![0]);
    let derived = derive_network_state(&declared, messages.len(), &clients).ok().expect("derivable");
    assert_eq!(derived.client.len(), 1);
    assert_eq!(derived.server.iter().map(|(s, _)| *s).collect::<Vec<_>>(), vec![0]);
    assert_eq!(network_csm::handshake_n2c::State::default().index(), 0);
    assert!(matches!(network_csm::handshake_n2c::State::default().direction(), Some(Direction::Initiator)));
}

#[test]
fn keepalive_relation() {
    let states = vec![network_csm::keepalive::State::Client, network_csm::keepalive::State::Server, network_csm::keepalive::State::Done];
    let messages = vec![
        network_csm::keepalive::Message::KeepAlive(1),
        network_csm::keepalive::Message::KeepAliveResponse(1),
        network_csm::keepalive::Message::Done,
    ];
    let (declared, clients) = network_csm::keepalive::declaration();
    let expected: Vec<(usize, usize, usize)> = vec![
        (0, 0, 1),
        (0, 2, 2),
        (1, 1, 2),
    ];
    let mut allowed = 0;
    for (si, state) in states.iter().enumerate() {
        assert_eq!(state.index(), si);
        let mut leaves = false;
        for (mi, message) in messages.iter().enumerate() {
            assert_eq!(message.index(), mi);
            let next = state.transition(message);
            let wanted = expected.iter().find(|t| t.0 == si && t.1 == mi).map(|t| t.2);
            assert_eq!(next.map(|s| s.index()), wanted);
            assert_eq!(declared.transition(si, mi), wanted);
            assert_eq!(message.can_transition(*state).map(|s| s.index()), wanted);
            if next.is_some() {
                allowed += 1;
                leaves = true;
                assert_eq!(state.direction(), Some(message.sender()));
            }
        }
        assert_eq!(state.direction().is_none(), !leaves);
    }
    assert_eq!(allowed, expected.len());
    assert_eq!(clients, vec![0, 2]);
    let derived = derive_network_state(&declared, messages.len(), &clients).ok().expect("derivable");
    assert_eq!(derived.client.len(), 2);
    assert_eq!(derived.server.iter().map(|(s, _)| *s).collect::<Vec<_>>(), vec![0]);
    assert_eq!(network_csm::keepalive::State::default().index(), 0);
    assert!(matches!(network_csm::keepalive::State::default().direction(), Some(Direction::Initiator)));
}

#[test]
fn tx_submission_relation() {
    let states = vec![network_csm::tx_submission::State::Init, network_csm::tx_submission::State::Idle, network_csm::tx_submission::State::Txs, network_csm::tx_submission::State::TxIdsBlocking, network_csm::tx_submission::State::TxIdsNonBlocking, network_csm::tx_submission::State::Done];
    let messages = vec![
        network_csm::tx_submission::Message::Init,
        network_csm::tx_submission::Message::RequestTxIds(true, 1, 1),
        network_csm::tx_submission::Message::ReplyTxIds(vec![]),
        network_csm::tx_submission::Message::RequestTxs(vec![]),
        network_csm::tx_submission::Message::ReplyTxs(vec![]),
        network_csm::tx_submission::Message::Done,
    ];
    let (declared, clients) = network_csm::tx_submission::declaration();
    let expected: Vec<(usize, usize, usize)> = vec![
        (0, 0, 1),
        (1, 1, 3),
        (1, 3, 2),
        (2, 4, 1),
        (4, 2, 1),
        (3, 5, 5),
        (3, 2, 1),
    ];
    let mut allowed = 0;
    for (si, state) in states.iter().enumerate() {
        assert_eq!(state.index(), si);
        let mut leaves = false;
        for (mi, message) in messages.iter().enumerate() {
            assert_eq!(message.index(), mi);
            let next = state.transition(message);
            let wanted = expected.iter().find(|t| t.0 == si && t.1 == mi).map(|t| t.2);
            assert_eq!(next.map(|s| s.index()), wanted);
            assert_eq!(declared.transition(si, mi), wanted);
            assert_eq!(message.can_transition(*state).map(|s| s.index()), wanted);
            if next.is_some() {
                allowed += 1;
                leaves = true;
                assert_eq!(state.direction(), Some(message.sender()));
            }
        }
        assert_eq!(state.direction().is_none(), !leaves);
    }
    assert_eq!(allowed, expected.len());
    assert_eq!(clients, vec![0, 2, 4, 5]);
    let derived = derive_network_state(&declared, messages.len(), &clients).ok().expect("derivable");
    assert_eq!(derived.client.len(), 4);
    assert_eq!(derived.server.iter().map(|(s, _)| *s).collect::<Vec<_>>(), vec![0, 4, 3, 2]);
    assert_eq!(network_csm::tx_submission::State::default().index(), 0);
    assert!(matches!(network_csm::tx_submission::State::default().direction(), Some(Direction::Initiator)));
}

#[test]
fn local_tx_submission_relation() {
    let states = vec![network_csm::local_tx_submission::State::Idle, network_csm::local_tx_submission::State::Busy, network_csm::local_tx_submission::State::Done];
    let messages = vec![
        network_csm::local_tx_submission::Message::SubmitTx(network_csm::tx_submission::Tx(vec![])),
        network_csm::local_tx_submission::Message::AcceptTx,
        network_csm::local_tx_submission::Message::RejectTx(1),
        network_csm::local_tx_submission::Message::Done,
    ];
    let (declared, clients) = network_csm::local_tx_submission::declaration();
    let expected: Vec<(usize, usize, usize)> = vec![
        (0, 0, 1),
        (1, 1, 0),
        (1, 2, 0),
        (0, 3, 2),
    ];
    let mut allowed = 0;
    for (si, state) in states.iter().enumerate() {
        assert_eq!(state.index(), si);
        let mut leaves = false;
        for (mi, message) in messages.iter().enumerate() {
            assert_eq!(message.index(), mi);
            let next = state.transition(message);
            let wanted = expected.iter().find(|t| t.0 == si && t.1 == mi).map(|t| t.2);
            assert_eq!(next.map(|s| s.index()), wanted);
            assert_eq!(declared.transition(si, mi), wanted);
            assert_eq!(message.can_transition(*state).map(|s| s.index()), wanted);
            if next.is_some() {
                allowed += 1;
                leaves = true;
                assert_eq!(state.direction(), Some(message.sender()));
            }
        }
        assert_eq!(state.direction().is_none(), !leaves);
    }
    assert_eq!(allowed, expected.len());
    assert_eq!(clients, vec![0, 3]);
    let derived = derive_network_state(&declared, messages.len(), &clients).ok().expect("derivable");
    assert_eq!(derived.client.len(), 2);
    assert_eq!(derived.server.iter().map(|(s, _)| *s).collect::<Vec<_>>(), vec![0]);
    assert_eq!(network_csm::local_tx_submission::State::default().index(), 0);
    assert!(matches!(network_csm::local_tx_submission::State::default().direction(), Some(Direction::Initiator)));
}

#[test]
fn peer_sharing_relation() {
    let states = vec![network_csm::peer_sharing::State::Idle, network_csm::peer_sharing::State::Busy, network_csm::peer_sharing::State::Done];
    let messages = vec![
        network_csm::peer_sharing::Message::ShareRequest(1),
        network_csm::peer_sharing::Message::SharePeers(vec![]),
        network_csm::peer_sharing::Message::Done,
    ];
    let (declared, clients) = network_csm::peer_sharing::declaration();
    let expected: Vec<(usize, usize, usize)> = vec![
        (0, 0, 1),
        (1, 1, 0),
        (0, 2, 2),
    ];
    let mut allowed = 0;
    for (si, state) in states.iter().enumerate() {
        assert_eq!(state.index(), si);
        let mut leaves = false;
        for (mi, message) in messages.iter().enumerate() {
            assert_eq!(message.index(), mi);
            let next = state.transition(message);
            let wanted = expected.iter().find(|t| t.0 == si && t.1 == mi).map(|t| t.2);
            assert_eq!(next.map(|s| s.index()), wanted);
            assert_eq!(declared.transition(si, mi), wanted);
            assert_eq!(message.can_transition(*state).map(|s| s.index()), wanted);
            if next.is_some() {
                allowed += 1;
                leaves = true;
                assert_eq!(state.direction(), Some(message.sender()));
            }
        }
        assert_eq!(state.direction().is_none(), !leaves);
    }
    assert_eq!(allowed, expected.len());
    assert_eq!(clients, vec![0, 2]);
    let derived = derive_network_state(&declared, messages.len(), &clients).ok().expect("derivable");
    assert_eq!(derived.client.len(), 2);
    assert_eq!(derived.server.iter().map(|(s, _)| *s).collect::<Vec<_>>(), vec![0]);
    assert_eq!(network_csm::peer_sharing::State::default().index(), 0);
    assert!(matches!(network_csm::peer_sharing::State::default().direction(), Some(Direction::Initiator)));
}

#[test]
fn local_state_query_relation() {
    let states = vec![network_csm::local_state_query::State::Idle, network_csm::local_state_query::State::Acquiring, network_csm::local_state_query::State::Acquired, network_csm::local_state_query::State::Querying, network_csm::local_state_query::State::Done];
    let messages = vec![
        network_csm::local_state_query::Message::Acquire(network_csm::chainsync_n2n::Point::Origin),
        network_csm::local_state_query::Message::Acquired,
        network_csm::local_state_query::Message::Failure(network_csm::local_state_query::Failure::PointTooOld),
        network_csm::local_state_query::Message::Query(network_csm::local_state_query::CborData(network_csm::cbor::Cbor::Null)),
        network_csm::local_state_query::Message::Result(network_csm::local_state_query::CborData(network_csm::cbor::Cbor::Null)),
        network_csm::local_state_query::Message::Release,
        network_csm::local_state_query::Message::ReAcquire(network_csm::chainsync_n2n::Point::Origin),
        network_csm::local_state_query::Message::Done,
        network_csm::local_state_query::Message::Acquire2,
        network_csm::local_state_query::Message::ReAcquire2,
        network_csm::local_state_query::Message::Acquire3,
        network_csm::local_state_query::Message::ReAcquire3,
    ];
    let (declared, clients) = network_csm::local_state_query::declaration();
    let expected: Vec<(usize, usize, usize)> = vec![
        (0, 0, 1),
        (1, 1, 2),
        (1, 8, 2),
        (1, 10, 2),
        (2, 3, 3),
        (3, 4, 2),
        (2, 6, 1),
        (2, 9, 1),
        (2, 11, 1),
        (1, 2, 0),
        (2, 5, 0),
        (0, 7, 4),
    ];
    let mut allowed = 0;
    for (si, state) in states.iter().enumerate() {
        assert_eq!(state.index(), si);
        let mut leaves = false;
        for (mi, message) in messages.iter().enumerate() {
            assert_eq!(message.index(), mi);
            let next = state.transition(message);
            let wanted = expected.iter().find(|t| t.0 == si && t.1 == mi).map(|t| t.2);
            assert_eq!(next.map(|s| s.index()), wanted);
            assert_eq!(declared.transition(si, mi), wanted);
            assert_eq!(message.can_transition(*state).map(|s| s.index()), wanted);
            if next.is_some() {
                allowed += 1;
                leaves = true;
                assert_eq!(state.direction(), Some(message.sender()));
            }
        }
        assert_eq!(state.direction().is_none(), !leaves);
    }
    assert_eq!(allowed, expected.len());
    assert_eq!(clients, vec![0, 3, 5, 6, 7, 9, 11]);
    let derived = derive_network_state(&declared, messages.len(), &clients).ok().expect("derivable");
    assert_eq!(derived.client.len(), 7);
    assert_eq!(derived.server.iter().map(|(s, _)| *s).collect::<Vec<_>>(), vec![0, 2]);
    assert_eq!(network_csm::local_state_query::State::default().index(), 0);
    assert!(matches!(network_csm::local_state_query::State::default().direction(), Some(Direction::Initiator)));
}

#[test]
fn local_tx_monitor_relation() {
    let states = vec![network_csm::local_tx_monitor::State::Idle, network_csm::local_tx_monitor::State::Acquiring, network_csm::local_tx_monitor::State::Acquired, network_csm::local_tx_monitor::State::BusyNextTx, network_csm::local_tx_monitor::State::BusyHasTx, network_csm::local_tx_monitor::State::BusyGetSizes, network_csm::local_tx_monitor::State::BusyGetMeasures, network_csm::local_tx_monitor::State::Done];
    let messages = vec![
        network_csm::local_tx_monitor::Message::Done,
        network_csm::local_tx_monitor::Message::Acquire,
        network_csm::local_tx_monitor::Message::Acquired(1),
        network_csm::local_tx_monitor::Message::Release,
        network_csm::local_tx_monitor::Message::NextTx,
        network_csm::local_tx_monitor::Message::ReplyNextTx(network_csm::tx_submission::Tx(vec![])),
        network_csm::local_tx_monitor::Message::HasTx(network_csm::tx_submission::TxId(vec![])),
        network_csm::local_tx_monitor::Message::ReplyHasTx(true),
        network_csm::local_tx_monitor::Message::GetSizes,
        network_csm::local_tx_monitor::Message::ReplyGetSizes(network_csm::local_tx_monitor::Sizes { size1: 1, size2: 2, size3: 3 }),
        network_csm::local_tx_monitor::Message::GetMeasures,
        network_csm::local_tx_monitor::Message::ReplyGetMeasures(1, network_csm::local_tx_monitor::Measures(vec![])),
    ];
    let (declared, clients) = network_csm::local_tx_monitor::declaration();
    let expected: Vec<(usize, usize, usize)> = vec![
        (0, 1, 1),
        (1, 2, 2),
        (2, 3, 0),
        (2, 4, 3),
        (3, 5, 2),
        (2, 6, 4),
        (4, 7, 2),
        (2, 8, 5),
        (5, 9, 2),
        (2, 10, 6),
        (6, 11, 2),
        (0, 0, 7),
    ];
    let mut allowed = 0;
    for (si, state) in states.iter().enumerate() {
        assert_eq!(state.index(), si);
        let mut leaves = false;
        for (mi, message) in messages.iter().enumerate() {
            assert_eq!(message.index(), mi);
            let next = state.transition(message);
            let wanted = expected.iter().find(|t| t.0 == si && t.1 == mi).map(|t| t.2);
            assert_eq!(next.map(|s| s.index()), wanted);
            assert_eq!(declared.transition(si, mi), wanted);
            assert_eq!(message.can_transition(*state).map(|s| s.index()), wanted);
            if next.is_some() {
                allowed += 1;
                leaves = true;
                assert_eq!(state.direction(), Some(message.sender()));
            }
        }
        assert_eq!(state.direction().is_none(), !leaves);
    }
    assert_eq!(allowed, expected.len());
    assert_eq!(clients, vec![0, 1, 3, 4, 6, 8, 10]);
    let derived = derive_network_state(&declared, messages.len(), &clients).ok().expect("derivable");
    assert_eq!(derived.client.len(), 7);
    assert_eq!(derived.server.iter().map(|(s, _)| *s).collect::<Vec<_>>(), vec![0, 2]);
    assert_eq!(network_csm::local_tx_monitor::State::default().index(), 0);
    assert!(matches!(network_csm::local_tx_monitor::State::default().direction(), Some(Direction::Initiator)));
}
