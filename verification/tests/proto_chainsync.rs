use network_csm::chainsync_n2c;
use network_csm::chainsync_n2n;
use network_csm::chainsync_n2n::{
    client_find_intersect_ret, client_request_next_ret, server_idle_message_filter,
    CborChainsyncData, FindIntersectRet, Message as M, OnIdleMsg, Point, Points, RequestNextRet,
    State as S, Tip,
};
use network_csm::frame::Direction;
use network_csm::protocol::Protocol;

fn tip() -> Tip {
    Tip { point: Point::Origin, block_number: 0 }
}

#[test]
fn chainsync_transitions() {
    let header = || CborChainsyncData(vec![0x80]);
    assert_eq!(S::default(), S::Idle);
    assert_eq!(S::Idle.transition(&M::RequestNext), Some(S::CanAwait));
    assert_eq!(S::CanAwait.transition(&M::AwaitReply), Some(S::MustReply));
    assert_eq!(S::CanAwait.transition(&M::RollForward(header(), tip())), Some(S::Idle));
    assert_eq!(S::MustReply.transition(&M::RollForward(header(), tip())), Some(S::Idle));
    assert_eq!(S::CanAwait.transition(&M::RollBackward(Point::Origin, tip())), Some(S::Idle));
    assert_eq!(S::MustReply.transition(&M::RollBackward(Point::Origin, tip())), Some(S::Idle));
    assert_eq!(S::Idle.transition(&M::FindIntersect(Points(vec![]))), Some(S::Intersect));
    assert_eq!(S::Intersect.transition(&M::IntersectionFound(Point::Origin, tip())), Some(S::Idle));
    assert_eq!(S::Intersect.transition(&M::IntersectionNotFound(tip())), Some(S::Idle));
    assert_eq!(S::Idle.transition(&M::SyncDone), Some(S::Done));
    // not in the relation
    assert_eq!(S::Idle.transition(&M::RollForward(header(), tip())), None);
    assert_eq!(S::MustReply.transition(&M::AwaitReply), None);
    assert_eq!(S::Done.transition(&M::RequestNext), None);
    assert_eq!(S::Done.transition(&M::SyncDone), None);
    assert_eq!(S::Intersect.transition(&M::RequestNext), None);
    assert_eq!(S::CanAwait.transition(&M::IntersectionNotFound(tip())), None);
    assert_eq!(S::Idle.direction(), Some(Direction::Initiator));
    assert_eq!(S::Intersect.direction(), Some(Direction::Responder));
    assert_eq!(S::CanAwait.direction(), Some(Direction::Responder));
    assert_eq!(S::MustReply.direction(), Some(Direction::Responder));
    assert_eq!(S::Done.direction(), None);
}

#[test]
fn chainsync_sender_has_agency() {
    let states = [S::Idle, S::Done, S::Intersect, S::CanAwait, S::MustReply];
    let messages = vec![
        M::RequestNext,
        M::AwaitReply,
        M::RollForward(CborChainsyncData(vec![]), tip()),
        M::RollBackward(Point::Origin, tip()),
        M::FindIntersect(Points(vec![Point::Origin])),
        M::IntersectionFound(Point::Origin, tip()),
        M::IntersectionNotFound(tip()),
        M::SyncDone,
    ];
    let mut allowed = 0;
    for s in states {
        for m in &messages {
            if s.transition(m).is_some() {
                allowed += 1;
                assert_eq!(s.direction(), Some(m.sender()));
            }
        }
    }
    assert_eq!(allowed, 10);
}

#[test]
fn chainsync_n2c_follows_n2n() {
    let idle = chainsync_n2c::State::default();
    assert_eq!(idle.into_n2n(), chainsync_n2n::State::Idle);
    assert_eq!(chainsync_n2n::State::from(idle), chainsync_n2n::State::Idle);
    assert_eq!(chainsync_n2c::State::from(chainsync_n2n::State::CanAwait).into_n2n(), chainsync_n2n::State::CanAwait);
    let next = idle.transition(&M::RequestNext).expect("allowed");
    assert_eq!(next.into_n2n(), chainsync_n2n::State::CanAwait);
    assert_eq!(next.direction(), Some(Direction::Responder));
    assert_eq!(next.transition(&M::RequestNext), None);
    assert_eq!(
        chainsync_n2c::State::from_n2n(chainsync_n2n::State::Done).direction(),
        None
    );
}

#[test]
fn chainsync_filters() {
    assert!(matches!(client_request_next_ret(M::AwaitReply), Some(RequestNextRet::AwaitReply)));
    assert!(matches!(
        client_request_next_ret(M::RollBackward(Point::Origin, tip())),
        Some(RequestNextRet::RollBackward(Point::Origin, _))
    ));
    assert!(client_request_next_ret(M::RequestNext).is_none());
    assert!(client_request_next_ret(M::IntersectionNotFound(tip())).is_none());
    assert!(matches!(
        client_find_intersect_ret(M::IntersectionNotFound(tip())),
        Some(FindIntersectRet::IntersectionNotFound(_))
    ));
    assert!(client_find_intersect_ret(M::AwaitReply).is_none());
    assert!(matches!(server_idle_message_filter(M::SyncDone), Some(OnIdleMsg::SyncDone)));
    assert!(matches!(server_idle_message_filter(M::RequestNext), Some(OnIdleMsg::RequestNext)));
    assert!(server_idle_message_filter(M::AwaitReply).is_none());
    let back: M = M::from(RequestNextRet::AwaitReply);
    assert!(matches!(back, M::AwaitReply));
}
