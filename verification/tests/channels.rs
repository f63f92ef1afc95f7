use network_csm::channel::{Channel, ReadFailure, ReadMessageError};
use network_csm::channels_map::{ChannelsMapBuilder, DuplicateChannel};
use network_csm::frame::Id;

fn whole(item: &[u8]) -> Result<Vec<u8>, String> {
    Ok(item.to_vec())
}

#[test]
fn channel_push_and_pop() {
    let mut c = Channel::new(8);
    assert!(c.pop_message(whole).is_none());
    assert_eq!(c.push_bytes(&[0x82, 0x01]), Some(2));
    assert!(c.pop_message(whole).is_none());
    assert_eq!(c.push_bytes(&[0x02, 0x00]), Some(2));
    match c.pop_message(whole) {
        Some(Ok(item)) => assert_eq!(item, vec![0x82, 0x01, 0x02]),
        other => panic!("unexpected {:?}", other),
    }
    assert_eq!(c.available(), &[0x00]);
    match c.pop_message(whole) {
        Some(Ok(item)) => assert_eq!(item, vec![0x00]),
        other => panic!("unexpected {:?}", other),
    }
    assert!(c.pop_message(whole).is_none());
}

#[test]
fn channel_full_without_a_message() {
    let mut c = Channel::new(4);
    assert_eq!(c.push_bytes(&[0x58, 0x10, 0x01, 0x02]), Some(4));
    match c.pop_message(whole) {
        Some(Err(ReadMessageError(ReadFailure::BlockIsTooBig { buffer_size }))) => {
            assert_eq!(buffer_size, 4)
        }
        other => panic!("unexpected {:?}", other),
    }
    assert_eq!(c.push_bytes(&[0x03]), None);
    assert_eq!(c.push_bytes(&[]), None);
    assert_eq!(c.available(), &[0x58, 0x10, 0x01, 0x02]);
}

#[test]
fn channel_push_that_does_not_fit() {
    let mut c = Channel::new(4);
    assert_eq!(c.push_bytes(&[1, 2, 3]), Some(3));
    assert_eq!(c.push_bytes(&[4, 5]), Some(1));
    assert_eq!(c.available(), &[1, 2, 3, 4]);
    assert!(c.try_buf_received().is_none());
    assert_eq!(c.push_bytes(&[5]), None);
    assert_eq!(c.available(), &[1, 2, 3, 4]);
}

#[test]
fn channel_invalid_content() {
    let mut c = Channel::new(8);
    c.push_bytes(&[0xff, 0x00]);
    match c.pop_message(whole) {
        Some(Err(ReadMessageError(ReadFailure::InvalidCbor))) => {}
        other => panic!("unexpected {:?}", other),
    }
    let mut c = Channel::new(8);
    c.push_bytes(&[0x01, 0x02]);
    let refuse = |_: &[u8]| -> Result<u8, String> { Err("not this".to_string()) };
    match c.pop_message(refuse) {
        Some(Err(ReadMessageError(ReadFailure::InvalidValue(why)))) => assert_eq!(why, "not this"),
        other => panic!("unexpected {:?}", other),
    }
    assert_eq!(c.available(), &[0x01, 0x02]);
}

#[test]
fn channel_message_decoded_with_cbored() {
    let mut c = Channel::new(16);
    c.push_bytes(&[0x19, 0x01, 0x02, 0x18, 0x2a]);
    let decode = |item: &[u8]| -> Result<u64, String> {
        cbored::Reader::new(item).decode::<u64>().map_err(|e| format!("{}", e))
    };
    match c.pop_message(decode) {
        Some(Ok(v)) => assert_eq!(v, 258),
        other => panic!("unexpected {:?}", other),
    }
    match c.pop_message(decode) {
        Some(Ok(v)) => assert_eq!(v, 42),
        other => panic!("unexpected {:?}", other),
    }
}

#[test]
fn directory_is_kept_in_order() {
    let mut b: ChannelsMapBuilder<&'static str> = ChannelsMapBuilder::new();
    assert!(!b.has(Id::new(3)));
    assert!(b.add(Id::new(3), "three").is_ok());
    assert!(b.add(Id::new(0), "zero").is_ok());
    assert!(b.add(Id::new(10), "ten").is_ok());
    assert!(b.add(Id::new(5), "five").is_ok());
    assert!(b.has(Id::new(3)));
    assert!(!b.has(Id::new(4)));
    let m = b.finalize();
    let ids: Vec<u16> = m.iterate().iter().map(|(id, _)| id.as_int()).collect();
    assert_eq!(ids, vec![0, 3, 5, 10]);
    assert_eq!(m.len(), 4);
    assert_eq!(m.id_at(2).as_int(), 5);
    assert_eq!(m.dispatch(Id::new(5)), Some(&"five"));
    assert_eq!(m.dispatch(Id::new(6)), None);
    assert!(m.has_channel(Id::new(10)));
    assert!(!m.has_channel(Id::new(1)));
    assert_eq!(m.index_of(Id::new(10)), Some(3));
    assert_eq!(m.index_of(Id::new(11)), None);
    let lengths = m.map(|s| s.len());
    assert_eq!(lengths.dispatch(Id::new(3)), Some(&5));
    assert_eq!(lengths.dispatch(Id::new(0)), Some(&4));
    assert_eq!(lengths.len(), 4);
}

#[test]
fn directory_duplicate() {
    let mut b: ChannelsMapBuilder<u8> = ChannelsMapBuilder::new();
    assert!(b.add(Id::new(2), 1).is_ok());
    match b.add(Id::new(2), 9) {
        Err(DuplicateChannel(id)) => assert_eq!(id.as_int(), 2),
        Ok(()) => panic!("expected a duplicate"),
    }
    // the channel registered first stays
    assert_eq!(b.len(), 1);
    assert!(b.has(Id::new(2)));
    let mut m = b.finalize();
    assert_eq!(m.len(), 1);
    assert_eq!(m.dispatch(Id::new(2)), Some(&1));
    *m.channel_at_mut(0) = 4;
    assert_eq!(m.dispatch(Id::new(2)), Some(&4));
}
