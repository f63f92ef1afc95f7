use network_csm::frame::Direction;
use network_csm::handshake_n2c::Version as C;
use network_csm::handshake_n2n::Version as N;
use network_csm::handshake_n2n::{
    client_propose_versions_ret, server_propose_message_filter, DiffusionMode, HandshakeNodeData,
    Magic, Message as M, PeerSharing, ProposeVersionsRet, RefuseReason, State as S, Version,
    VersionProposal, Versions,
};
use network_csm::protocol::Protocol;

#[test]
fn handshake_transitions() {
    let data = || HandshakeNodeData {
        magic: Magic(764824073),
        diffusion: DiffusionMode::InitiatorOnly,
        peer_sharing: PeerSharing::Enabled,
        query: false,
    };
    let proposal = || VersionProposal(vec![(Version::V14, data())]);
    assert_eq!(S::default(), S::Propose);
    assert_eq!(S::Propose.transition(&M::ProposeVersions(proposal())), Some(S::Confirm));
    assert_eq!(S::Confirm.transition(&M::AcceptVersion(Version::V14, data())), Some(S::Done));
    assert_eq!(
        S::Confirm.transition(&M::Refuse(RefuseReason::VersionMismatch(Versions(vec![])))),
        Some(S::Done)
    );
    assert_eq!(S::Confirm.transition(&M::QueryReply(proposal())), Some(S::Done));
    assert_eq!(S::Confirm.transition(&M::ProposeVersions(proposal())), None);
    assert_eq!(S::Propose.transition(&M::AcceptVersion(Version::V14, data())), None);
    assert_eq!(S::Done.transition(&M::ProposeVersions(proposal())), None);
    assert_eq!(S::Propose.direction(), Some(Direction::Initiator));
    assert_eq!(S::Confirm.direction(), Some(Direction::Responder));
    assert_eq!(S::Done.direction(), None);
    assert_eq!(server_propose_message_filter(M::ProposeVersions(proposal())), Some(proposal()));
    assert_eq!(server_propose_message_filter(M::QueryReply(proposal())), None);
    assert!(matches!(
        client_propose_versions_ret(M::AcceptVersion(Version::V14, data())),
        Some(ProposeVersionsRet::AcceptVersion(Version::V14, _))
    ));
    assert!(client_propose_versions_ret(M::ProposeVersions(proposal())).is_none());
}

#[test]
fn handshake_versions() {
    let n2n: Vec<u64> = vec![6, 7, 8, 9, 10, 11, 13, 14];
    for v in 0..40u64 {
        match N::from_integer(v) {
            Some(version) => {
                assert!(n2n.contains(&v));
                assert_eq!(version.to_integer(), v);
            }
            None => assert!(!n2n.contains(&v)),
        }
    }
    assert_eq!(N::from_integer(14), Some(N::V14));
    assert_eq!(N::from_integer(12), None);
    assert_eq!(N::known().len(), 8);
    assert_eq!(C::from_integer(32784), Some(C::V16));
    assert_eq!(C::from_integer(32788), Some(C::V20));
    assert_eq!(C::from_integer(32783), None);
    assert_eq!(C::from_integer(32789), None);
    assert_eq!(C::from_integer(14), None);
    assert_eq!(C::V18.to_integer(), 32786);
    assert_eq!(PeerSharing::from_integer(0), Some(PeerSharing::Disabled));
    assert_eq!(PeerSharing::from_integer(1), Some(PeerSharing::Enabled));
    assert_eq!(PeerSharing::from_integer(2), None);
    assert_eq!(PeerSharing::Enabled.to_integer(), 1);
    assert!(!DiffusionMode::InitiatorOnly.to_bool());
    assert!(DiffusionMode::InitiatorAndResponder.to_bool());
    assert_eq!(DiffusionMode::from_bool(true), DiffusionMode::InitiatorAndResponder);
    assert_eq!(DiffusionMode::from_bool(false), DiffusionMode::InitiatorOnly);
}
