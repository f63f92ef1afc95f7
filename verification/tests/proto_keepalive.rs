use network_csm::keepalive::{
    client_keep_alive_ret, server_client_message_filter, Message as M, OnClientMsg, State as S,
};
use network_csm::protocol::Protocol;

#[test]
fn keepalive_transitions() {
    assert_eq!(S::default(), S::Client);
    assert_eq!(S::Client.transition(&M::KeepAlive(7)), Some(S::Server));
    assert_eq!(S::Client.transition(&M::Done), Some(S::Done));
    assert_eq!(S::Server.transition(&M::KeepAliveResponse(7)), Some(S::Done));
    assert_eq!(S::Server.transition(&M::KeepAlive(7)), None);
    assert_eq!(S::Client.transition(&M::KeepAliveResponse(7)), None);
    assert_eq!(S::Done.transition(&M::Done), None);
    assert_eq!(client_keep_alive_ret(M::KeepAliveResponse(9)), Some(9));
    assert_eq!(client_keep_alive_ret(M::KeepAlive(9)), None);
    assert!(matches!(server_client_message_filter(M::KeepAlive(3)), Some(OnClientMsg::KeepAlive(3))));
    assert!(matches!(server_client_message_filter(M::Done), Some(OnClientMsg::Done)));
    assert!(server_client_message_filter(M::KeepAliveResponse(3)).is_none());
}
