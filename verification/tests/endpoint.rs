use network_csm::blockfetch;
use network_csm::chainsync_n2n::{self, CborChainsyncData, Point, Tip};
use network_csm::channel::{ReadFailure, ReadMessageError};
use network_csm::endpoint::{
    AsyncChannel, AsyncRawChannel, HandleChannels, MessageError, ReadStep, Sending,
};
use network_csm::frame::{Direction, Id, OnDirection};
use network_csm::handshake_n2n;
use network_csm::keepalive;

fn whole(item: &[u8]) -> Result<Vec<u8>, String> {
    Ok(item.to_vec())
}

#[test]
fn sending_advances() {
    let mut s = Sending::new(vec![1, 2, 3, 4, 5]);
    assert_eq!(s.left(), &[1, 2, 3, 4, 5]);
    s.advance(2);
    assert_eq!(s.left(), &[3, 4, 5]);
    s.advance(0);
    s.advance(3);
    assert_eq!(s.left(), &[] as &[u8]);
}

#[test]
fn raw_channel_holds_one_message_at_a_time() {
    let mut c = AsyncRawChannel::new(Direction::Initiator, 16);
    assert_eq!(c.direction(), Direction::Initiator);
    assert!(!c.is_sending());
    assert_eq!(c.send_one(vec![1, 2]), Ok(()));
    assert!(c.is_sending());
    assert_eq!(c.send_one(vec![3]), Err(vec![3]));
    assert_eq!(c.sending(), Some(&[1u8, 2][..]));
}

#[test]
fn raw_channel_reads_messages() {
    let mut c = AsyncRawChannel::new(Direction::Responder, 8);
    assert!(matches!(c.read_one(whole), ReadStep::Wait));
    assert_eq!(c.receive(&[0x82, 0x01]), Ok(()));
    assert!(matches!(c.read_one(whole), ReadStep::Wait));
    assert_eq!(c.receive(&[0x02]), Ok(()));
    assert_eq!(c.received(), &[0x82, 0x01, 0x02]);
    match c.read_one(whole) {
        ReadStep::Message(item) => assert_eq!(item, vec![0x82, 0x01, 0x02]),
        _ => panic!("expected a message"),
    }
    assert!(!c.is_terminated());
    c.terminate();
    assert!(c.is_terminated());
    assert!(matches!(c.read_one(whole), ReadStep::Terminated));
    // what has arrived is still read after the end of the connection
    assert_eq!(c.receive(&[0x05]), Ok(()));
    assert!(matches!(c.read_one(whole), ReadStep::Message(_)));
}

#[test]
fn raw_channel_full_and_invalid() {
    let mut c = AsyncRawChannel::new(Direction::Responder, 3);
    assert_eq!(c.receive(&[0x44, 0x01, 0x02]), Ok(()));
    match c.read_one(whole) {
        ReadStep::Failed(ReadMessageError(ReadFailure::BlockIsTooBig { buffer_size })) => {
            assert_eq!(buffer_size, 3)
        }
        _ => panic!("expected a failure"),
    }
    assert_eq!(c.receive(&[0x03]), Err(()));
    assert_eq!(c.received(), &[0x44, 0x01, 0x02]);
    let mut c = AsyncRawChannel::new(Direction::Responder, 3);
    assert_eq!(c.receive(&[0x01, 0x02]), Ok(()));
    assert_eq!(c.receive(&[0x03, 0x04]), Err(()));
    assert_eq!(c.received(), &[0x01, 0x02]);
    let mut c = AsyncRawChannel::new(Direction::Responder, 3);
    c.receive(&[0xff]);
    assert!(matches!(
        c.read_one(whole),
        ReadStep::Failed(ReadMessageError(ReadFailure::InvalidCbor))
    ));
}

#[test]
fn channel_follows_the_protocol() {
    let mut c: AsyncChannel<chainsync_n2n::State> =
        AsyncChannel::new(Direction::Initiator, chainsync_n2n::State::Idle);
    assert_eq!(c.channel_id().as_int(), 2);
    assert_eq!(c.direction(), Direction::Initiator);
    assert_eq!(c.get_state(), chainsync_n2n::State::Idle);
    assert!(c.write_one(&chainsync_n2n::Message::RequestNext));
    assert_eq!(c.get_state(), chainsync_n2n::State::CanAwait);
    assert!(!c.write_one(&chainsync_n2n::Message::RequestNext));
    assert_eq!(c.get_state(), chainsync_n2n::State::CanAwait);
    assert!(matches!(
        c.read_one(chainsync_n2n::Message::AwaitReply),
        Ok(chainsync_n2n::Message::AwaitReply)
    ));
    assert_eq!(c.get_state(), chainsync_n2n::State::MustReply);
    c.replace_state(chainsync_n2n::State::Done);
    assert_eq!(c.get_state(), chainsync_n2n::State::Done);
}

#[test]
fn illegal_peer_message() {
    let mut c: AsyncChannel<chainsync_n2n::State> =
        AsyncChannel::new(Direction::Initiator, chainsync_n2n::State::Idle);
    let tip = Tip { point: Point::Origin, block_number: 0 };
    let message = chainsync_n2n::Message::RollForward(CborChainsyncData(vec![0x80]), tip);
    match c.read_one(message) {
        Err(MessageError::InvalidState { current, msg }) => {
            assert_eq!(current, chainsync_n2n::State::Idle);
            assert!(matches!(msg, chainsync_n2n::Message::RollForward(_, _)));
        }
        _ => panic!("expected an invalid state"),
    }
    assert_eq!(c.get_state(), chainsync_n2n::State::Idle);
}

#[test]
fn read_one_match_outcomes() {
    let mut c: AsyncChannel<keepalive::State> =
        AsyncChannel::new(Direction::Initiator, keepalive::State::Server);
    match c.read_one_match(keepalive::Message::KeepAlive(1), keepalive::client_keep_alive_ret) {
        Err(MessageError::InvalidState { current, .. }) => {
            assert_eq!(current, keepalive::State::Server)
        }
        _ => panic!("expected an invalid state"),
    }
    assert_eq!(c.get_state(), keepalive::State::Server);
    let nothing = |_m: keepalive::Message| -> Option<u16> { None };
    assert!(matches!(
        c.read_one_match(keepalive::Message::KeepAliveResponse(4), nothing),
        Err(MessageError::InternalError)
    ));
    assert_eq!(c.get_state(), keepalive::State::Server);
    assert!(matches!(
        c.read_one_match(keepalive::Message::KeepAliveResponse(4), keepalive::client_keep_alive_ret),
        Ok(4)
    ));
    assert_eq!(c.get_state(), keepalive::State::Done);
}

#[test]
fn message_error_map_state() {
    let e: MessageError<keepalive::State> = MessageError::InvalidState {
        current: keepalive::State::Server,
        msg: keepalive::Message::Done,
    };
    let mapped: MessageError<blockfetch::State> =
        e.map_state(|_s, _m| (blockfetch::State::Busy, blockfetch::Message::NoBlocks));
    assert!(matches!(
        mapped,
        MessageError::InvalidState { current: blockfetch::State::Busy, msg: blockfetch::Message::NoBlocks }
    ));
    let e: MessageError<keepalive::State> = MessageError::StreamTerminated;
    let mapped: MessageError<blockfetch::State> =
        e.map_state(|_s, _m| (blockfetch::State::Busy, blockfetch::Message::NoBlocks));
    assert!(matches!(mapped, MessageError::StreamTerminated));
    let e: MessageError<keepalive::State> =
        MessageError::from(ReadMessageError(ReadFailure::InvalidCbor));
    assert!(matches!(
        e,
        MessageError::InvalidContent(ReadMessageError(ReadFailure::InvalidCbor))
    ));
}

#[test]
fn handle_channels_register() {
    let mut h = HandleChannels::new();
    assert!(!h.has(Id::new(2)));
    let chainsync = h.add_initiator::<chainsync_n2n::State>().expect("free");
    assert_eq!(chainsync.direction(), Direction::Initiator);
    assert_eq!(chainsync.get_state(), chainsync_n2n::State::Idle);
    assert!(h.has(Id::new(2)));
    let handshake = h.add_responder::<handshake_n2n::State>().expect("free");
    assert_eq!(handshake.direction(), Direction::Responder);
    let both = h
        .add::<blockfetch::State>(OnDirection::InitiatorAndResponder((), ()))
        .expect("free");
    assert!(both.has_direction(Direction::Initiator));
    assert!(both.has_direction(Direction::Responder));
    match h.add_initiator::<chainsync_n2n::State>() {
        Err(duplicate) => assert_eq!(duplicate.0.as_int(), 2),
        Ok(_) => panic!("expected a duplicate"),
    }
    let with = h.add_with(keepalive::State::Server, OnDirection::Responder(())).expect("free");
    assert_eq!(with.get(Direction::Responder).map(|c| c.get_state()), Some(keepalive::State::Server));
    let map = h.finalize();
    let ids: Vec<u16> = map.iterate().iter().map(|(id, _)| id.as_int()).collect();
    assert_eq!(ids, vec![0, 2, 3, 8]);
    let ends = map.dispatch(Id::new(3)).expect("registered");
    assert!(ends.has_direction(Direction::Initiator) && ends.has_direction(Direction::Responder));
    let ends = map.dispatch(Id::new(0)).expect("registered");
    assert!(!ends.has_direction(Direction::Initiator));
    assert_eq!(ends.get(Direction::Responder).map(|c| c.direction()), Some(Direction::Responder));
    assert_eq!(map.dispatch(Id::new(2)).and_then(|e| e.get(Direction::Initiator)).map(|c| c.received().len()), Some(0));
}

#[test]
fn raw_channel_messages_in_bytes() {
    let mut c = AsyncRawChannel::new(Direction::Initiator, 16);
    // RequestNext is the array of its number
    assert_eq!(c.send_message(&chainsync_n2n::Message::RequestNext), Ok(()));
    assert_eq!(c.sending(), Some(&[0x81u8, 0x00][..]));
    assert_eq!(c.send_message(&chainsync_n2n::Message::SyncDone), Err(vec![0x81, 0x07]));
    assert_eq!(c.sending(), Some(&[0x81u8, 0x00][..]));

    assert!(matches!(c.read_message::<keepalive::Message>(), ReadStep::Wait));
    assert_eq!(c.receive(&[0x82, 0x00, 0x19]), Ok(()));
    assert!(matches!(c.read_message::<keepalive::Message>(), ReadStep::Wait));
    assert_eq!(c.receive(&[0x01, 0x02, 0x81, 0x02]), Ok(()));
    match c.read_message::<keepalive::Message>() {
        ReadStep::Message(keepalive::Message::KeepAlive(cookie)) => assert_eq!(cookie, 0x0102),
        _ => panic!("expected a ping"),
    }
    assert_eq!(c.received(), &[0x81, 0x02]);
    assert!(matches!(
        c.read_message::<keepalive::Message>(),
        ReadStep::Message(keepalive::Message::Done)
    ));
    assert_eq!(c.received(), &[] as &[u8]);
    // an item that is no message stays where it is
    assert_eq!(c.receive(&[0x81, 0x09]), Ok(()));
    assert!(matches!(
        c.read_message::<keepalive::Message>(),
        ReadStep::Failed(ReadMessageError(ReadFailure::InvalidValue(_)))
    ));
    assert_eq!(c.received(), &[0x81, 0x09]);
    c.terminate();
    let mut ended = AsyncRawChannel::new(Direction::Initiator, 16);
    ended.terminate();
    assert!(matches!(ended.read_message::<keepalive::Message>(), ReadStep::Terminated));
}
