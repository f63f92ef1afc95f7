use network_csm::buf::{Buf, BufCborReadingError};

#[test]
fn buf_starts_empty() {
    let b = Buf::new(4);
    assert_eq!(b.len(), 0);
    assert_eq!(b.empty_remaining(), 4);
    assert_eq!(b.maximum_capacity(), 4);
    assert!(!b.empty_is_empty());
    assert_eq!(b.available(), &[] as &[u8]);
    let z = Buf::new(0);
    assert!(z.empty_is_empty());
}

#[test]
fn buf_append_takes_what_finds_room() {
    let mut b = Buf::new(4);
    assert_eq!(b.append(&[1, 2, 3]), 3);
    assert_eq!(b.append(&[4, 5, 6]), 1);
    assert_eq!(b.available(), &[1, 2, 3, 4]);
    assert_eq!(b.len(), 4);
    assert_eq!(b.empty_remaining(), 0);
    assert!(b.empty_is_empty());
    assert_eq!(b.append(&[9]), 0);
    assert_eq!(b.append(&[]), 0);
    assert_eq!(b.available(), &[1, 2, 3, 4]);
    b.consume(3);
    assert_eq!(b.append(&[5, 6, 7, 8, 9]), 3);
    assert_eq!(b.available(), &[4, 5, 6, 7]);
}

#[test]
fn buf_append_and_append_atomic_differ() {
    let mut partial = Buf::new(3);
    let mut atomic = Buf::new(3);
    assert_eq!(partial.append(&[1, 2]), 2);
    assert_eq!(atomic.append_atomic(&[1, 2]), Ok(()));
    assert_eq!(partial.append(&[3, 4]), 1);
    assert_eq!(atomic.append_atomic(&[3, 4]), Err(()));
    assert_eq!(partial.available(), &[1, 2, 3]);
    assert_eq!(atomic.available(), &[1, 2]);
}

#[test]
fn buf_append_atomic() {
    let mut b = Buf::new(5);
    assert_eq!(b.append_atomic(&[1, 2, 3]), Ok(()));
    assert_eq!(b.append_atomic(&[4, 5, 6]), Err(()));
    assert_eq!(b.available(), &[1, 2, 3]);
    assert_eq!(b.append_atomic(&[4, 5]), Ok(()));
    assert_eq!(b.available(), &[1, 2, 3, 4, 5]);
    assert_eq!(b.append_atomic(&[]), Ok(()));
}

#[test]
fn buf_append_atomic2() {
    let mut b = Buf::new(6);
    assert_eq!(b.append_atomic2(&[1, 2], &[3, 4]), Ok(()));
    assert_eq!(b.available(), &[1, 2, 3, 4]);
    assert_eq!(b.append_atomic2(&[5], &[6, 7]), Err(()));
    assert_eq!(b.append_atomic2(&[5, 6, 7], &[]), Err(()));
    assert_eq!(b.available(), &[1, 2, 3, 4]);
    assert_eq!(b.append_atomic2(&[5], &[6]), Ok(()));
    assert_eq!(b.available(), &[1, 2, 3, 4, 5, 6]);
}

#[test]
fn buf_append_consume_sequence() {
    // appended: 1..=9, consumed: 2 + 0 + 5 = 7
    let mut b = Buf::new(6);
    assert_eq!(b.append(&[1, 2, 3]), 3);
    b.consume(2);
    assert_eq!(b.available(), &[3]);
    assert_eq!(b.append(&[4, 5, 6, 7]), 4);
    b.consume(0);
    assert_eq!(b.available(), &[3, 4, 5, 6, 7]);
    b.consume(5);
    assert_eq!(b.available(), &[] as &[u8]);
    assert_eq!(b.append(&[8, 9]), 2);
    assert_eq!(b.available(), &[8, 9]);
    assert!(b.len() <= b.maximum_capacity());
    assert_eq!(b.empty_remaining(), 4);
}

#[test]
fn buf_consume_cbor() {
    let decode = |item: &[u8]| -> Result<Vec<u8>, String> { Ok(item.to_vec()) };
    let mut b = Buf::new(16);
    assert!(b.consume_cbor(decode).is_none());
    b.append(&[0x82, 0x01]);
    assert!(b.consume_cbor(decode).is_none());
    b.append(&[0x02, 0x18]);
    match b.consume_cbor(decode) {
        Some(Ok(item)) => assert_eq!(item, vec![0x82, 0x01, 0x02]),
        other => panic!("unexpected {:?}", other),
    }
    assert_eq!(b.available(), &[0x18]);
    let refuse = |_item: &[u8]| -> Result<u8, String> { Err("no".to_string()) };
    b.append(&[0x2a]);
    match b.consume_cbor(refuse) {
        Some(Err(BufCborReadingError::InvalidValue(why))) => assert_eq!(why, "no"),
        other => panic!("unexpected {:?}", other),
    }
    assert_eq!(b.available(), &[0x18, 0x2a]);
    let mut bad = Buf::new(4);
    bad.append(&[0xff]);
    match bad.consume_cbor(decode) {
        Some(Err(BufCborReadingError::InvalidCBOR)) => {}
        other => panic!("unexpected {:?}", other),
    }
    assert_eq!(bad.available(), &[0xff]);
}
