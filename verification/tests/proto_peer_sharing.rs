use network_csm::peer_sharing::{
    client_share_request_ret, Message as M, Peer, PeerAddress, State as S,
};
use network_csm::protocol::Protocol;

#[test]
fn peer_sharing_transitions() {
    assert_eq!(S::Idle.transition(&M::ShareRequest(32)), Some(S::Busy));
    assert_eq!(S::Busy.transition(&M::SharePeers(vec![])), Some(S::Idle));
    assert_eq!(S::Idle.transition(&M::Done), Some(S::Done));
    assert_eq!(S::Busy.transition(&M::ShareRequest(1)), None);
    assert_eq!(S::Idle.transition(&M::SharePeers(vec![])), None);
    assert_eq!(S::Done.transition(&M::Done), None);
    let peers = client_share_request_ret(M::SharePeers(vec![Peer::IPV4(1, 2)])).expect("peers");
    assert_eq!(peers.len(), 1);
    assert!(client_share_request_ret(M::Done).is_none());
    assert_eq!(
        Peer::IPV4(0x7F000001, 3001).to_socketaddr(),
        PeerAddress::V4([127, 0, 0, 1], 3001)
    );
    assert_eq!(
        Peer::IPV6(0x20010db8, 0, 0, 1, 3001).to_socketaddr(),
        PeerAddress::V6([0x2001, 0x0db8, 0, 0, 0, 0, 0, 1], 3001)
    );
    assert_eq!(
        Peer::IPV6(0x01020304, 0x05060708, 0x090a0b0c, 0x0d0e0f10, 1).to_socketaddr(),
        PeerAddress::V6([0x0102, 0x0304, 0x0506, 0x0708, 0x090a, 0x0b0c, 0x0d0e, 0x0f10], 1)
    );
}
