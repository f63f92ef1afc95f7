use network_csm::frame::Direction;
use network_csm::protocol::Protocol;
use network_csm::tx_submission::{
    client_init_ret, server_init_message_filter, server_txs_message_filter, InitRet, Message as M,
    State as S, Tx,
};

#[test]
fn tx_submission_transitions() {
    assert_eq!(S::default(), S::Init);
    assert_eq!(S::Init.transition(&M::Init), Some(S::Idle));
    assert_eq!(S::Idle.transition(&M::RequestTxIds(true, 0, 1)), Some(S::TxIdsBlocking));
    assert_eq!(S::Idle.transition(&M::RequestTxs(vec![])), Some(S::Txs));
    assert_eq!(S::Txs.transition(&M::ReplyTxs(vec![])), Some(S::Idle));
    assert_eq!(S::TxIdsNonBlocking.transition(&M::ReplyTxIds(vec![])), Some(S::Idle));
    assert_eq!(S::TxIdsBlocking.transition(&M::ReplyTxIds(vec![])), Some(S::Idle));
    assert_eq!(S::TxIdsBlocking.transition(&M::Done), Some(S::Done));
    assert_eq!(S::TxIdsNonBlocking.transition(&M::Done), None);
    assert_eq!(S::Init.transition(&M::Done), None);
    assert_eq!(S::Idle.direction(), Some(Direction::Responder));
    assert_eq!(S::Init.direction(), Some(Direction::Initiator));
    assert!(matches!(client_init_ret(M::RequestTxs(vec![])), Some(InitRet::RequestTxs(_))));
    assert!(client_init_ret(M::Init).is_none());
    assert_eq!(server_init_message_filter(M::Init), Some(()));
    assert_eq!(server_init_message_filter(M::Done), None);
    let txs = server_txs_message_filter(M::ReplyTxs(vec![Tx(vec![1])])).expect("txs");
    assert_eq!(txs.len(), 1);
}
