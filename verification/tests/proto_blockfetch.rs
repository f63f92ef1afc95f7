use network_csm::blockfetch::{
    client_request_range_ret, server_idle_message_filter, CborBlockData, Message as M, OnIdleMsg,
    RequestRangeRet, State as S,
};
use network_csm::chainsync_n2n::Point;
use network_csm::frame::Direction;
use network_csm::protocol::Protocol;

#[test]
fn blockfetch_transitions() {
    assert_eq!(S::default(), S::Idle);
    assert_eq!(S::Idle.transition(&M::RequestRange(Point::Origin, Point::Origin)), Some(S::Busy));
    assert_eq!(S::Idle.transition(&M::ClientDone), Some(S::Done));
    assert_eq!(S::Busy.transition(&M::NoBlocks), Some(S::Idle));
    assert_eq!(S::Busy.transition(&M::StartBatch), Some(S::Streaming));
    assert_eq!(S::Streaming.transition(&M::Block(CborBlockData(vec![1]))), Some(S::Streaming));
    assert_eq!(S::Streaming.transition(&M::BatchDone), Some(S::Idle));
    assert_eq!(S::Idle.transition(&M::NoBlocks), None);
    assert_eq!(S::Busy.transition(&M::BatchDone), None);
    assert_eq!(S::Streaming.transition(&M::StartBatch), None);
    assert_eq!(S::Done.transition(&M::ClientDone), None);
    assert_eq!(S::Idle.direction(), Some(Direction::Initiator));
    assert_eq!(S::Busy.direction(), Some(Direction::Responder));
    assert_eq!(S::Streaming.direction(), Some(Direction::Responder));
    assert_eq!(S::Done.direction(), None);
    assert_eq!(M::RequestRange(Point::Origin, Point::Origin).sender(), Direction::Initiator);
    assert_eq!(M::ClientDone.sender(), Direction::Initiator);
    assert_eq!(M::NoBlocks.sender(), Direction::Responder);
}

#[test]
fn blockfetch_filters() {
    assert!(matches!(client_request_range_ret(M::NoBlocks), Some(RequestRangeRet::NoBlocks)));
    assert!(matches!(client_request_range_ret(M::StartBatch), Some(RequestRangeRet::StartBatch)));
    assert!(client_request_range_ret(M::BatchDone).is_none());
    assert!(client_request_range_ret(M::ClientDone).is_none());
    assert!(matches!(server_idle_message_filter(M::ClientDone), Some(OnIdleMsg::ClientDone)));
    assert!(matches!(
        server_idle_message_filter(M::RequestRange(Point::Origin, Point::Origin)),
        Some(OnIdleMsg::RequestRange(Point::Origin, Point::Origin))
    ));
    assert!(server_idle_message_filter(M::NoBlocks).is_none());
}
