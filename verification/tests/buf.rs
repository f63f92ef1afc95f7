use network_csm::buf::Buf;

#[test]
fn buf_works() {
    let mut b = Buf::new(10);
    assert_eq!(b.len(), 0);
    let data1 = &[1, 2, 3, 4, 5];
    let data2 = &[6];
    let full_data = data1
        .iter()
        .cloned()
        .chain(data2.iter().cloned())
        .collect::<Vec<_>>();
    let sz_append1 = b.append(data1);
    assert_eq!(sz_append1, data1.len());
    assert_eq!(b.len(), data1.len());
    let sz_append2 = b.append(data2);
    assert_eq!(sz_append2, data2.len());
    assert_eq!(b.len(), data1.len() + data2.len());
    assert_eq!(b.available(), &full_data);
    b.consume(3);
    assert_eq!(b.len(), 3);
    assert_eq!(b.available(), &full_data[3..]);
    b.consume(3);
    assert_eq!(b.len(), 0);
}
