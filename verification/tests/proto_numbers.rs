use network_csm::blockfetch;
use network_csm::chainsync_n2c;
use network_csm::chainsync_n2n;
use network_csm::handshake_n2c;
use network_csm::handshake_n2n;
use network_csm::keepalive;
use network_csm::local_state_query;
use network_csm::local_tx_monitor;
use network_csm::local_tx_submission;
use network_csm::peer_sharing;
use network_csm::protocol::Protocol;
use network_csm::tx_submission;

#[test]
fn protocol_numbers_and_sizes() {
    assert_eq!(handshake_n2n::State::protocol_number().as_int(), 0);
    assert_eq!(handshake_n2c::State::protocol_number().as_int(), 0);
    assert_eq!(chainsync_n2n::State::protocol_number().as_int(), 2);
    assert_eq!(blockfetch::State::protocol_number().as_int(), 3);
    assert_eq!(tx_submission::State::protocol_number().as_int(), 4);
    assert_eq!(chainsync_n2c::State::protocol_number().as_int(), 5);
    assert_eq!(local_tx_submission::State::protocol_number().as_int(), 6);
    assert_eq!(local_state_query::State::protocol_number().as_int(), 7);
    assert_eq!(keepalive::State::protocol_number().as_int(), 8);
    assert_eq!(local_tx_monitor::State::protocol_number().as_int(), 9);
    assert_eq!(peer_sharing::State::protocol_number().as_int(), 10);
    assert_eq!(handshake_n2n::State::message_max_size(), 2048);
    assert_eq!(chainsync_n2n::State::message_max_size(), 8192);
    assert_eq!(blockfetch::State::message_max_size(), 2_560_000);
    assert_eq!(keepalive::State::message_max_size(), 64);
}
