use network_csm::cbor_helper::{cbor_buf_validate, classify, readable_len, CborBufValidate, CborProbe};

fn outcome(data: &[u8]) -> Option<Result<usize, ()>> {
    match cbor_buf_validate(data) {
        CborBufValidate::NeedMore => None,
        CborBufValidate::CborError => Some(Err(())),
        CborBufValidate::Slice(item, n) => {
            assert_eq!(item, &data[..n]);
            Some(Ok(n))
        }
    }
}

#[test]
fn probe_empty_needs_more() {
    assert_eq!(outcome(&[]), None);
}

#[test]
fn probe_simple_items() {
    assert_eq!(outcome(&[0x00]), Some(Ok(1)));
    assert_eq!(outcome(&[0x18, 0x2a]), Some(Ok(2)));
    assert_eq!(outcome(&[0x18]), None);
    assert_eq!(outcome(&[0x19, 0x01]), None);
    assert_eq!(outcome(&[0x19, 0x01, 0x02]), Some(Ok(3)));
    assert_eq!(outcome(&[0x43, 0x01]), None);
    assert_eq!(outcome(&[0x43, 0x01, 0x02, 0x03]), Some(Ok(4)));
    assert_eq!(outcome(&[0x80]), Some(Ok(1)));
    assert_eq!(outcome(&[0xf5]), Some(Ok(1)));
}

#[test]
fn probe_nested_items() {
    let item = [0x83, 0x01, 0x82, 0x02, 0x03, 0x82, 0x04, 0x05];
    assert_eq!(outcome(&item), Some(Ok(8)));
    let indefinite = [0x9f, 0x01, 0x82, 0x02, 0x03, 0x9f, 0x04, 0x05, 0xff, 0xff];
    assert_eq!(outcome(&indefinite), Some(Ok(10)));
    let tagged = [0xd8, 0x18, 0x43, 0x01, 0x02, 0x03];
    assert_eq!(outcome(&tagged), Some(Ok(6)));
}

#[test]
fn probe_errors() {
    assert_eq!(outcome(&[0xff]), Some(Err(())));
    assert_eq!(outcome(&[0x1c]), Some(Err(())));
    assert_eq!(outcome(&[0x1f]), Some(Err(())));
    assert_eq!(outcome(&[0x82, 0x01, 0xff]), Some(Err(())));
}

#[test]
fn probe_every_partition_of_an_item() {
    let item: Vec<u8> = vec![
        0x83, 0x00, 0x82, 0x19, 0x01, 0x00, 0x44, 0xde, 0xad, 0xbe, 0xef, 0xa1, 0x61, 0x61, 0xf5,
    ];
    assert_eq!(outcome(&item), Some(Ok(item.len())));
    for cut in 0..item.len() {
        assert_eq!(outcome(&item[..cut]), None, "prefix of {} bytes", cut);
    }
}

#[test]
fn probe_ignores_what_follows_the_item() {
    let item: Vec<u8> = vec![0x82, 0x01, 0x43, 0x0a, 0x0b, 0x0c];
    let suffixes: Vec<Vec<u8>> = vec![
        vec![],
        vec![0x00],
        vec![0xff],
        vec![0x82, 0x01],
        vec![0x1c, 0x1d, 0x1e],
        vec![0x5b, 0xff, 0xff, 0xff, 0xff, 0xff, 0xff, 0xff, 0xff, 0x00],
    ];
    for suffix in suffixes {
        let mut data = item.clone();
        data.extend_from_slice(&suffix);
        assert_eq!(outcome(&data), Some(Ok(item.len())), "suffix {:?}", suffix);
    }
}

#[test]
fn probe_string_too_long_to_address() {
    let data = [0x5b, 0xff, 0xff, 0xff, 0xff, 0xff, 0xff, 0xff, 0xff, 0x00];
    assert_eq!(readable_len(&data), 0);
    assert_eq!(outcome(&data), None);
    let inside = [0x82, 0x01, 0x7b, 0xff, 0xff, 0xff, 0xff, 0xff, 0xff, 0xff, 0xff, 0x00];
    assert_eq!(readable_len(&inside), 2);
    assert_eq!(outcome(&inside), None);
    let fine = [0x82, 0x01, 0x42, 0x01, 0x02, 0x18];
    assert_eq!(readable_len(&fine), fine.len());
}

#[test]
fn classify_outcomes() {
    let data = [1u8, 2, 3, 4];
    match classify(CborProbe::Complete(3), &data, 4) {
        CborBufValidate::Slice(item, 3) => assert_eq!(item, &[1, 2, 3]),
        _ => panic!("expected a slice"),
    }
    assert!(matches!(classify(CborProbe::Complete(4), &data, 4), CborBufValidate::Slice(_, 4)));
    assert!(matches!(classify(CborProbe::Complete(0), &data, 4), CborBufValidate::CborError));
    assert!(matches!(classify(CborProbe::Complete(4), &data, 3), CborBufValidate::CborError));
    assert!(matches!(classify(CborProbe::DataMissing, &data, 4), CborBufValidate::NeedMore));
    assert!(matches!(classify(CborProbe::Malformed, &data, 4), CborBufValidate::CborError));
}
