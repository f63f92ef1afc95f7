use network_csm::demux::{Demux, DemuxResult};
use network_csm::frame::{Direction, Header, Id, Time, HEADER_SIZE};
use network_csm::mux::Mux;

#[derive(Debug, PartialEq, Eq, Clone)]
enum Seen {
    Header(u16, Direction, u16),
    Data(u16, Direction, bool, Vec<u8>),
}

fn demux_all(demux: &mut Demux, mut data: &[u8], seen: &mut Vec<Seen>) {
    while !data.is_empty() {
        let (sz, event) = demux.ingress(data);
        assert!(sz > 0 && sz <= data.len());
        match event {
            DemuxResult::Continue => {}
            DemuxResult::HeaderReceived(h) => {
                seen.push(Seen::Header(h.id().as_int(), h.direction(), h.payload_length()))
            }
            DemuxResult::DataAppend(h, finished, part) => {
                seen.push(Seen::Data(h.id().as_int(), h.direction(), finished, part.to_vec()))
            }
        }
        data = &data[sz..];
    }
}

fn frames(seen: &[Seen]) -> Vec<(u16, Direction, Vec<u8>)> {
    let mut out: Vec<(u16, Direction, Vec<u8>)> = Vec::new();
    for s in seen {
        match s {
            Seen::Header(id, dir, _) => out.push((*id, *dir, Vec::new())),
            Seen::Data(id, dir, _, part) => {
                let last = out.last_mut().expect("data follows a header");
                assert_eq!((last.0, last.1), (*id, *dir));
                last.2.extend_from_slice(part);
            }
        }
    }
    out
}

#[test]
fn mux_egress_writes_header_and_payload() {
    let mut mux = Mux::new(64);
    assert_eq!(mux.writable(), 64);
    assert_eq!(mux.work(), &[] as &[u8]);
    assert_eq!(
        mux.egress_at(Time(0x01020304), Id::new(2), Direction::Responder, &[0xaa, 0xbb, 0xcc]),
        Ok(())
    );
    assert_eq!(
        mux.work(),
        &[0x01, 0x02, 0x03, 0x04, 0x80, 0x02, 0x00, 0x03, 0xaa, 0xbb, 0xcc]
    );
    assert_eq!(mux.bytes_written(), 11);
    assert_eq!(mux.writable(), 53);
    assert_eq!(mux.egress_at(Time(5), Id::new(3), Direction::Initiator, &[]), Ok(()));
    assert_eq!(&mux.work()[11..], &[0, 0, 0, 5, 0, 3, 0, 0]);
    assert_eq!(mux.bytes_written(), 19);
    mux.consume(11);
    assert_eq!(mux.work(), &[0, 0, 0, 5, 0, 3, 0, 0]);
    assert_eq!(mux.bytes_written(), 19);
    mux.consume(8);
    assert_eq!(mux.work(), &[] as &[u8]);
    assert_eq!(mux.writable(), 64);
}

#[test]
fn mux_egress_all_or_nothing() {
    let mut mux = Mux::new(16);
    assert_eq!(mux.egress_at(Time(0), Id::new(1), Direction::Initiator, &[0; 9]), Err(()));
    assert_eq!(mux.work(), &[] as &[u8]);
    assert_eq!(mux.bytes_written(), 0);
    assert_eq!(mux.egress_at(Time(0), Id::new(1), Direction::Initiator, &[7; 8]), Ok(()));
    assert_eq!(mux.work().len(), 16);
    assert_eq!(mux.egress_at(Time(0), Id::new(1), Direction::Initiator, &[]), Err(()));
    assert_eq!(mux.bytes_written(), 16);
}

#[test]
fn mux_egress_refuses_a_payload_too_long_for_a_frame() {
    let mut mux = Mux::new(70000);
    let long = vec![0u8; 65536];
    assert_eq!(mux.egress_at(Time(0), Id::new(1), Direction::Initiator, &long), Err(()));
    assert_eq!(mux.work().len(), 0);
    let most = vec![1u8; 65535];
    assert_eq!(mux.egress_at(Time(0), Id::new(1), Direction::Initiator, &most), Ok(()));
    assert_eq!(mux.work().len(), 65535 + HEADER_SIZE);
    assert_eq!(&mux.work()[6..8], &[0xff, 0xff]);
}

#[test]
fn mux_egress_with_the_clock() {
    let mut mux = Mux::new(32);
    assert_eq!(mux.egress(Id::new(9), Direction::Responder, &[1, 2]), Ok(()));
    let work = mux.work();
    assert_eq!(work.len(), 10);
    let mut head = [0u8; 8];
    head.copy_from_slice(&work[..8]);
    let h = Header::from_bytes(head);
    assert_eq!(h.id().as_int(), 9);
    assert_eq!(h.direction(), Direction::Responder);
    assert_eq!(h.payload_length(), 2);
    assert_eq!(&work[8..], &[1, 2]);
}

#[test]
fn demux_header_then_payload() {
    let mut demux = Demux::new();
    let mut seen = Vec::new();
    let bytes = [0, 0, 0, 1, 0x80, 0x05, 0, 3, 10, 20, 30];
    demux_all(&mut demux, &bytes, &mut seen);
    assert_eq!(
        seen,
        vec![
            Seen::Header(5, Direction::Responder, 3),
            Seen::Data(5, Direction::Responder, true, vec![10, 20, 30]),
        ]
    );
    assert_eq!(demux.bytes_read(), 11);
}

#[test]
fn demux_empty_input_and_empty_payload() {
    let mut demux = Demux::new();
    let (sz, event) = demux.ingress(&[]);
    assert_eq!(sz, 0);
    assert!(matches!(event, DemuxResult::Continue));
    let mut seen = Vec::new();
    let bytes = [0, 0, 0, 1, 0, 7, 0, 0, 0, 0, 0, 2, 0, 8, 0, 1, 0x55];
    demux_all(&mut demux, &bytes, &mut seen);
    assert_eq!(
        seen,
        vec![
            Seen::Header(7, Direction::Initiator, 0),
            Seen::Header(8, Direction::Initiator, 1),
            Seen::Data(8, Direction::Initiator, true, vec![0x55]),
        ]
    );
}

#[test]
fn demux_byte_by_byte() {
    let mut demux = Demux::new();
    let bytes = [0u8, 0, 0, 1, 0, 2, 0, 2, 0xaa, 0xbb];
    let mut seen = Vec::new();
    for (i, b) in bytes.iter().enumerate() {
        let (sz, event) = demux.ingress(std::slice::from_ref(b));
        assert_eq!(sz, 1);
        match event {
            DemuxResult::Continue => assert!(i < 7),
            DemuxResult::HeaderReceived(h) => {
                assert_eq!(i, 7);
                seen.push(Seen::Header(h.id().as_int(), h.direction(), h.payload_length()));
            }
            DemuxResult::DataAppend(h, finished, part) => {
                assert!(i >= 8);
                assert_eq!(finished, i == 9);
                seen.push(Seen::Data(h.id().as_int(), h.direction(), finished, part.to_vec()));
            }
        }
    }
    assert_eq!(
        frames(&seen),
        vec![(2, Direction::Initiator, vec![0xaa, 0xbb])]
    );
}

#[test]
fn mux_then_demux_in_any_chunking() {
    let triples: Vec<(u16, Direction, Vec<u8>)> = vec![
        (2, Direction::Initiator, vec![1, 2, 3]),
        (3, Direction::Responder, vec![]),
        (2, Direction::Initiator, (0..200u16).map(|v| v as u8).collect()),
        (0x7fff, Direction::Responder, vec![9]),
        (0, Direction::Initiator, vec![0xff; 17]),
    ];
    let mut mux = Mux::new(4096);
    for (i, (id, dir, payload)) in triples.iter().enumerate() {
        assert_eq!(mux.egress_at(Time(i as u32), Id::new(*id), *dir, payload), Ok(()));
    }
    let wire = mux.work().to_vec();
    for chunk in [1usize, 2, 3, 5, 7, 8, 9, 13, 64, 4096] {
        let mut demux = Demux::new();
        let mut seen = Vec::new();
        for piece in wire.chunks(chunk) {
            demux_all(&mut demux, piece, &mut seen);
        }
        assert_eq!(frames(&seen), triples, "chunks of {}", chunk);
        assert_eq!(demux.bytes_read(), wire.len() as u64);
    }
}
