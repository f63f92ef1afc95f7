use network_csm::chainsync_n2n::Point;
use network_csm::frame::Direction;
use network_csm::local_state_query::{Failure, Message as QueryM, State as QueryS};
use network_csm::local_tx_monitor::{Message as MonitorM, State as MonitorS};
use network_csm::local_tx_submission::{Message as SubmitM, State as SubmitS};
use network_csm::protocol::Protocol;
use network_csm::tx_submission::Tx;

#[test]
fn local_tx_submission_transitions() {
    assert_eq!(SubmitS::Idle.transition(&SubmitM::SubmitTx(Tx(vec![]))), Some(SubmitS::Busy));
    assert_eq!(SubmitS::Busy.transition(&SubmitM::AcceptTx), Some(SubmitS::Idle));
    assert_eq!(SubmitS::Busy.transition(&SubmitM::RejectTx(3)), Some(SubmitS::Idle));
    assert_eq!(SubmitS::Idle.transition(&SubmitM::Done), Some(SubmitS::Done));
    assert_eq!(SubmitS::Idle.transition(&SubmitM::AcceptTx), None);
    assert_eq!(SubmitS::Done.transition(&SubmitM::SubmitTx(Tx(vec![]))), None);
}

#[test]
fn local_state_query_transitions() {
    assert_eq!(QueryS::Idle.transition(&QueryM::Acquire(Point::Origin)), Some(QueryS::Acquiring));
    assert_eq!(QueryS::Acquiring.transition(&QueryM::Acquired), Some(QueryS::Acquired));
    assert_eq!(QueryS::Acquiring.transition(&QueryM::Acquire2), Some(QueryS::Acquired));
    assert_eq!(QueryS::Acquiring.transition(&QueryM::Acquire3), Some(QueryS::Acquired));
    assert_eq!(
        QueryS::Acquiring.transition(&QueryM::Failure(Failure::PointTooOld)),
        Some(QueryS::Idle)
    );
    assert_eq!(
        QueryS::Acquired.transition(&QueryM::ReAcquire(Point::Origin)),
        Some(QueryS::Acquiring)
    );
    assert_eq!(QueryS::Acquired.transition(&QueryM::ReAcquire2), Some(QueryS::Acquiring));
    assert_eq!(QueryS::Acquired.transition(&QueryM::ReAcquire3), Some(QueryS::Acquiring));
    assert_eq!(QueryS::Acquired.transition(&QueryM::Release), Some(QueryS::Idle));
    assert_eq!(QueryS::Idle.transition(&QueryM::Done), Some(QueryS::Done));
    assert_eq!(QueryS::Idle.transition(&QueryM::Release), None);
    assert_eq!(QueryS::Querying.transition(&QueryM::Acquired), None);
    assert_eq!(QueryS::Acquired.direction(), Some(Direction::Initiator));
    assert_eq!(QueryS::Querying.direction(), Some(Direction::Responder));
}

#[test]
fn local_tx_monitor_transitions() {
    assert_eq!(MonitorS::Idle.transition(&MonitorM::Acquire), Some(MonitorS::Acquiring));
    assert_eq!(MonitorS::Acquiring.transition(&MonitorM::Acquired(5)), Some(MonitorS::Acquired));
    assert_eq!(MonitorS::Acquired.transition(&MonitorM::NextTx), Some(MonitorS::BusyNextTx));
    assert_eq!(MonitorS::Acquired.transition(&MonitorM::GetSizes), Some(MonitorS::BusyGetSizes));
    assert_eq!(
        MonitorS::Acquired.transition(&MonitorM::GetMeasures),
        Some(MonitorS::BusyGetMeasures)
    );
    assert_eq!(
        MonitorS::BusyHasTx.transition(&MonitorM::ReplyHasTx(true)),
        Some(MonitorS::Acquired)
    );
    assert_eq!(MonitorS::Acquired.transition(&MonitorM::Release), Some(MonitorS::Idle));
    assert_eq!(MonitorS::Idle.transition(&MonitorM::Done), Some(MonitorS::Done));
    assert_eq!(MonitorS::Idle.transition(&MonitorM::NextTx), None);
    assert_eq!(MonitorS::BusyNextTx.transition(&MonitorM::ReplyHasTx(true)), None);
}
