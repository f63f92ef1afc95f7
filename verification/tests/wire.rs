use cbored::{Positive, StructureLength, TagValue, Writer};
use network_csm::blockfetch;
use network_csm::blockfetch::CborBlockData;
use network_csm::blockfetch_client::BlockFetchClient;
use network_csm::cbor::{Cbor, CborCodec};
use network_csm::cbor_bytes;
use network_csm::cbor_bytes::{encode, from_bytes, read_tree, to_bytes, write_tree, MAX_DEPTH};
use network_csm::chainsync_n2n;
use network_csm::chainsync_n2n::{Point, Points, Tip};
use network_csm::channels_map::ChannelsMap;
use network_csm::demux::Demux;
use network_csm::endpoint::{AsyncChannel, AsyncRawChannel, HandleChannels, MessageError, ReadStep};
use network_csm::frame::{Direction, Id, OnDirection};
use network_csm::handle::{demux_chunk, mux_round};
use network_csm::handshake_n2n;
use network_csm::handshake_n2n::{
    DiffusionMode, HandshakeNodeData, Magic, PeerSharing, Version, VersionProposal,
};
use network_csm::mux::Mux;
use network_csm::protocol::Protocol;

// the bytes that `cbored` writes for a tree
fn reference_write(writer: &mut Writer, tree: &Cbor) {
    match tree {
        Cbor::Positive(v) => writer.positive(Positive::canonical(*v)),
        Cbor::Negative(v) => writer.negative(cbored::Negative::canonical(*v)),
        Cbor::Bytes(data) => writer.encode(data.as_slice()),
        Cbor::Text(text) => writer.encode(text.as_str()),
        Cbor::Array(items) => {
            writer.array_build(StructureLength::from(items.len() as u64), |writer| {
                for item in items.iter() {
                    reference_write(writer, item);
                }
            })
        }
        Cbor::Entries(entries) => {
            writer.map_build(StructureLength::from(entries.len() as u64), |writer| {
                for (key, value) in entries.iter() {
                    reference_write(writer, key);
                    reference_write(writer, value);
                }
            })
        }
        Cbor::Tag(tag, inner) => {
            writer.tag_build(TagValue::from_u64(*tag), |writer| reference_write(writer, inner))
        }
        Cbor::Bool(b) => writer.bool(*b),
        Cbor::Null => writer.constant(cbored::Constant::Null),
        Cbor::Undefined => writer.constant(cbored::Constant::Undefined),
        Cbor::Byte(v) => writer.byte(cbored::Byte::canonical(*v)),
        Cbor::Float(bits, v) => match bits {
            16 => writer.float(cbored::Float::FP16(*v as u16)),
            32 => writer.float(cbored::Float::FP32(*v as u32)),
            _ => writer.float(cbored::Float::FP64(*v)),
        },
    }
}

fn reference_bytes(tree: &Cbor) -> Vec<u8> {
    let mut writer = Writer::new();
    reference_write(&mut writer, tree);
    writer.finalize()
}

fn decode<M: CborCodec>(item: &[u8]) -> Result<M, String> {
    cbor_bytes::decode::<M>(item).map_err(|e| format!("{:?}", e))
}

fn same(a: &Cbor, b: &Cbor) -> bool {
    format!("{:?}", a) == format!("{:?}", b)
}

fn sample_trees() -> Vec<Cbor> {
    let mut trees = Vec::new();
    for v in [0u64, 1, 23, 24, 255, 256, 65535, 65536, 0xffff_ffff, 0x1_0000_0000, u64::MAX] {
        trees.push(Cbor::Positive(v));
        trees.push(Cbor::Negative(v));
        trees.push(Cbor::Tag(v, Box::new(Cbor::Null)));
    }
    for n in [0usize, 1, 23, 24, 255, 256, 70000] {
        trees.push(Cbor::Bytes((0..n).map(|i| i as u8).collect()));
        trees.push(Cbor::Text("a".repeat(n)));
        trees.push(Cbor::Array((0..n.min(300)).map(|i| Cbor::Positive(i as u64)).collect()));
        trees.push(Cbor::Entries(
            (0..n.min(300)).map(|i| (Cbor::Positive(i as u64), Cbor::Bool(i % 2 == 0))).collect(),
        ));
    }
    trees.push(Cbor::Text("h\u{e9}llo \u{20ac} \u{1f600}".to_string()));
    trees.push(Cbor::Bool(true));
    trees.push(Cbor::Bool(false));
    trees.push(Cbor::Null);
    trees.push(Cbor::Undefined);
    for v in [0u8, 1, 19, 24, 32, 255] {
        trees.push(Cbor::Byte(v));
    }
    trees.push(Cbor::Float(16, 0x3c00));
    trees.push(Cbor::Float(32, 0x3f80_0000));
    trees.push(Cbor::Float(64, 0x3ff0_0000_0000_0000));
    trees.push(Cbor::Array(vec![
        Cbor::Array(vec![Cbor::Entries(vec![(
            Cbor::Text("k".to_string()),
            Cbor::Tag(24, Box::new(Cbor::Bytes(vec![0x80]))),
        )])]),
        Cbor::Array(vec![]),
        Cbor::Negative(9),
    ]));
    trees
}

#[test]
fn trees_are_written_as_cbored_writes_them() {
    for tree in sample_trees() {
        assert_eq!(to_bytes(&tree), reference_bytes(&tree), "{:?}", tree);
    }
}

#[test]
fn trees_are_read_back() {
    for tree in sample_trees() {
        let bytes = to_bytes(&tree);
        let back = from_bytes(&bytes).expect("readable");
        assert!(same(&back, &tree), "{:?}", tree);
        // what follows the item is not taken for part of it
        let mut longer = bytes.clone();
        longer.push(0x00);
        assert!(from_bytes(&longer).is_err());
        assert!(same(&read_tree(&longer, 8).expect("readable"), &tree));
        // a part of the item is no item
        assert!(from_bytes(&bytes[..bytes.len() - 1]).is_err());
    }
}

#[test]
fn written_bytes_by_hand() {
    assert_eq!(to_bytes(&Cbor::Positive(0)), vec![0x00]);
    assert_eq!(to_bytes(&Cbor::Positive(23)), vec![0x17]);
    assert_eq!(to_bytes(&Cbor::Positive(24)), vec![0x18, 0x18]);
    assert_eq!(to_bytes(&Cbor::Positive(500)), vec![0x19, 0x01, 0xf4]);
    assert_eq!(to_bytes(&Cbor::Positive(764824073)), vec![0x1a, 0x2d, 0x96, 0x4a, 0x09]);
    assert_eq!(
        to_bytes(&Cbor::Positive(0x0102_0304_0506_0708)),
        vec![0x1b, 1, 2, 3, 4, 5, 6, 7, 8]
    );
    assert_eq!(to_bytes(&Cbor::Negative(9)), vec![0x29]);
    assert_eq!(to_bytes(&Cbor::Bytes(vec![1, 2])), vec![0x42, 1, 2]);
    assert_eq!(to_bytes(&Cbor::Text("a".to_string())), vec![0x61, 0x61]);
    assert_eq!(
        to_bytes(&Cbor::Array(vec![Cbor::Positive(1), Cbor::Bool(true)])),
        vec![0x82, 0x01, 0xf5]
    );
    assert_eq!(
        to_bytes(&Cbor::Entries(vec![(Cbor::Positive(1), Cbor::Null)])),
        vec![0xa1, 0x01, 0xf6]
    );
    assert_eq!(to_bytes(&Cbor::Tag(24, Box::new(Cbor::Undefined))), vec![0xd8, 0x18, 0xf7]);
    assert_eq!(to_bytes(&Cbor::Bool(false)), vec![0xf4]);
    assert_eq!(to_bytes(&Cbor::Byte(3)), vec![0xe3]);
    assert_eq!(to_bytes(&Cbor::Byte(19)), vec![0xf3]);
    // the simple values 20 to 23 are false, true, null and undefined
    assert_eq!(to_bytes(&Cbor::Byte(20)), to_bytes(&Cbor::Bool(false)));
    assert_eq!(to_bytes(&Cbor::Byte(21)), vec![0xf5]);
    assert_eq!(to_bytes(&Cbor::Byte(22)), vec![0xf6]);
    assert_eq!(to_bytes(&Cbor::Byte(23)), vec![0xf7]);
    assert_eq!(to_bytes(&Cbor::Byte(24)), vec![0xf8, 24]);
    assert_eq!(to_bytes(&Cbor::Byte(200)), vec![0xf8, 200]);
    assert_eq!(to_bytes(&Cbor::Float(16, 0x3c00)), vec![0xf9, 0x3c, 0x00]);
    assert_eq!(to_bytes(&Cbor::Float(16, 0x1_3c00)), vec![0xf9, 0x3c, 0x00]);
    assert_eq!(to_bytes(&Cbor::Float(32, 0x1_0000_0002)), vec![0xfa, 0, 0, 0, 2]);
    assert_eq!(to_bytes(&Cbor::Float(32, 1)), vec![0xfa, 0, 0, 0, 1]);
    assert_eq!(to_bytes(&Cbor::Float(64, 1)), vec![0xfb, 0, 0, 0, 0, 0, 0, 0, 1]);
    let mut out = vec![0xaa];
    write_tree(&Cbor::Positive(1), &mut out);
    assert_eq!(out, vec![0xaa, 0x01]);
}

#[test]
fn read_each_kind() {
    assert!(same(&from_bytes(&[0x18, 0x2a]).unwrap(), &Cbor::Positive(42)));
    assert!(same(&from_bytes(&[0x19, 0x00, 0x01]).unwrap(), &Cbor::Positive(1)));
    assert!(same(&from_bytes(&[0x38, 0x63]).unwrap(), &Cbor::Negative(99)));
    assert!(same(&from_bytes(&[0xf4]).unwrap(), &Cbor::Bool(false)));
    assert!(same(&from_bytes(&[0xf5]).unwrap(), &Cbor::Bool(true)));
    assert!(same(&from_bytes(&[0xf6]).unwrap(), &Cbor::Null));
    assert!(same(&from_bytes(&[0xf7]).unwrap(), &Cbor::Undefined));
    assert!(same(&from_bytes(&[0xe5]).unwrap(), &Cbor::Byte(5)));
    assert!(same(&from_bytes(&[0xf8, 0x40]).unwrap(), &Cbor::Byte(64)));
    assert!(same(&from_bytes(&[0xf9, 0x3c, 0x00]).unwrap(), &Cbor::Float(16, 0x3c00)));
    assert!(same(&from_bytes(&[0xfa, 0, 0, 0, 2]).unwrap(), &Cbor::Float(32, 2)));
    assert!(same(&from_bytes(&[0xfb, 0, 0, 0, 0, 0, 0, 0, 3]).unwrap(), &Cbor::Float(64, 3)));
    assert!(same(&from_bytes(&[0x43, 1, 2, 3]).unwrap(), &Cbor::Bytes(vec![1, 2, 3])));
    assert!(same(&from_bytes(&[0x62, 0x68, 0x69]).unwrap(), &Cbor::Text("hi".to_string())));
    assert!(same(
        &from_bytes(&[0x82, 0x01, 0x81, 0x02]).unwrap(),
        &Cbor::Array(vec![Cbor::Positive(1), Cbor::Array(vec![Cbor::Positive(2)])])
    ));
    assert!(same(
        &from_bytes(&[0xa1, 0x61, 0x6b, 0x0a]).unwrap(),
        &Cbor::Entries(vec![(Cbor::Text("k".to_string()), Cbor::Positive(10))])
    ));
    assert!(same(
        &from_bytes(&[0xc1, 0x0a]).unwrap(),
        &Cbor::Tag(1, Box::new(Cbor::Positive(10)))
    ));
    // strings and arrays of indefinite length
    assert!(same(
        &from_bytes(&[0x5f, 0x41, 0x01, 0x42, 0x02, 0x03, 0xff]).unwrap(),
        &Cbor::Bytes(vec![1, 2, 3])
    ));
    assert!(same(
        &from_bytes(&[0x7f, 0x61, 0x61, 0x61, 0x62, 0xff]).unwrap(),
        &Cbor::Text("ab".to_string())
    ));
    assert!(same(
        &from_bytes(&[0x9f, 0x01, 0x02, 0xff]).unwrap(),
        &Cbor::Array(vec![Cbor::Positive(1), Cbor::Positive(2)])
    ));
    assert!(same(
        &from_bytes(&[0xbf, 0x01, 0x02, 0xff]).unwrap(),
        &Cbor::Entries(vec![(Cbor::Positive(1), Cbor::Positive(2))])
    ));
}

#[test]
fn unreadable_bytes() {
    assert!(from_bytes(&[]).is_err());
    assert!(read_tree(&[], 8).is_err());
    assert!(from_bytes(&[0xff]).is_err());
    assert!(from_bytes(&[0x1c]).is_err());
    assert!(from_bytes(&[0x82, 0x01]).is_err());
    assert!(from_bytes(&[0x61, 0xff]).is_err());
    assert!(read_tree(&[0x01], 0).is_err());
    // a string that announces more bytes than can be addressed
    assert!(from_bytes(&[0x5b, 0xff, 0xff, 0xff, 0xff, 0xff, 0xff, 0xff, 0xff]).is_err());
    assert!(read_tree(&[0x5b, 0xff, 0xff, 0xff, 0xff, 0xff, 0xff, 0xff, 0xff], 8).is_err());
}

#[test]
fn nesting_is_bounded() {
    let mut deep = vec![0x81u8; MAX_DEPTH - 1];
    deep.push(0x00);
    assert!(from_bytes(&deep).is_ok());
    let mut deeper = vec![0x81u8; MAX_DEPTH];
    deeper.push(0x00);
    assert!(from_bytes(&deeper).is_err());
    assert!(read_tree(&[0x81, 0x81, 0x00], 3).is_ok());
    assert!(read_tree(&[0x81, 0x81, 0x00], 2).is_err());
}

#[test]
fn values_to_bytes_and_back() {
    let tip = Tip { point: Point::Origin, block_number: 7 };
    let message = chainsync_n2n::Message::IntersectionNotFound(tip);
    let bytes = encode(&message);
    assert_eq!(bytes, to_bytes(&message.to_cbor()));
    let back: chainsync_n2n::Message = cbor_bytes::decode(&bytes).expect("a message");
    assert_eq!(format!("{:?}", back), format!("{:?}", message));
    // a tree that is no message
    assert!(cbor_bytes::decode::<chainsync_n2n::Message>(&[0x81, 0x18, 0x63]).is_err());
    // bytes that are no tree
    assert!(cbor_bytes::decode::<chainsync_n2n::Message>(&[0x81]).is_err());
    assert_eq!(cbor_bytes::decode::<u64>(&[0x18, 0x2a]), Ok(42));
    assert_eq!(encode(&42u64), vec![0x18, 0x2a]);
}

fn directory(direction: Direction) -> ChannelsMap<OnDirection<AsyncRawChannel>> {
    let mut h = HandleChannels::new();
    let side = || match direction {
        Direction::Initiator => OnDirection::Initiator(()),
        Direction::Responder => OnDirection::Responder(()),
    };
    h.add::<handshake_n2n::State>(side()).expect("free");
    h.add::<chainsync_n2n::State>(side()).expect("free");
    h.add::<blockfetch::State>(side()).expect("free");
    h.finalize()
}

fn end_mut(
    map: &mut ChannelsMap<OnDirection<AsyncRawChannel>>,
    id: Id,
    direction: Direction,
) -> &mut AsyncRawChannel {
    let i = map.index_of(id).expect("registered");
    match (map.channel_at_mut(i), direction) {
        (OnDirection::Initiator(c), Direction::Initiator) => c,
        (OnDirection::Responder(c), Direction::Responder) => c,
        _ => panic!("no such end"),
    }
}

fn pump(
    from: &mut ChannelsMap<OnDirection<AsyncRawChannel>>,
    to: &mut ChannelsMap<OnDirection<AsyncRawChannel>>,
    mux: &mut Mux,
    demux: &mut Demux,
    chunk: usize,
) {
    loop {
        mux_round(mux, from);
        let work = mux.work().to_vec();
        if work.is_empty() {
            break;
        }
        for piece in work.chunks(chunk) {
            demux_chunk(demux, to, piece).expect("delivered");
        }
        mux.consume(work.len());
    }
}

#[test]
fn message_bytes() {
    let tip = Tip { point: Point::Origin, block_number: 0 };
    assert_eq!(to_bytes(&chainsync_n2n::Message::RequestNext.to_cbor()), vec![0x81, 0x00]);
    assert_eq!(
        to_bytes(&chainsync_n2n::Message::FindIntersect(Points(vec![Point::Origin])).to_cbor()),
        vec![0x82, 0x04, 0x81, 0x80]
    );
    assert_eq!(
        to_bytes(&chainsync_n2n::Message::IntersectionNotFound(tip).to_cbor()),
        vec![0x82, 0x06, 0x82, 0x80, 0x00]
    );
    assert_eq!(
        to_bytes(&blockfetch::Message::Block(CborBlockData(vec![0x80])).to_cbor()),
        vec![0x82, 0x04, 0xd8, 0x18, 0x41, 0x80]
    );
    let data = HandshakeNodeData {
        magic: Magic(764824073),
        diffusion: DiffusionMode::InitiatorOnly,
        peer_sharing: PeerSharing::Enabled,
        query: false,
    };
    assert_eq!(
        to_bytes(&VersionProposal(vec![(Version::V14, data)]).propose_data()),
        vec![0x82, 0x00, 0xa1, 0x0e, 0x84, 0x1a, 0x2d, 0x96, 0x4a, 0x09, 0xf4, 0x01, 0xf4]
    );
    let point = Point::BlockHeader { slot_nb: 300, hash: [0xab; 32] };
    let mut expected = vec![0x82, 0x19, 0x01, 0x2c, 0x58, 0x20];
    expected.extend_from_slice(&[0xab; 32]);
    assert_eq!(to_bytes(&point.to_cbor()), expected);
}

#[test]
fn bytes_to_messages() {
    let m: chainsync_n2n::Message = decode(&[0x82, 0x06, 0x82, 0x80, 0x00]).expect("a message");
    assert!(matches!(
        m,
        chainsync_n2n::Message::IntersectionNotFound(Tip { point: Point::Origin, block_number: 0 })
    ));
    // an array of indefinite length and an integer in a longer form stand for the same tree
    let m: chainsync_n2n::Message = decode(&[0x9f, 0x18, 0x06, 0x82, 0x80, 0x00, 0xff]).expect("a message");
    assert!(matches!(m, chainsync_n2n::Message::IntersectionNotFound(_)));
    assert!(decode::<chainsync_n2n::Message>(&[0x81, 0x08]).is_err());
    assert!(decode::<chainsync_n2n::Message>(&[0x00]).is_err());
    assert!(decode::<handshake_n2n::Message>(&[0x82, 0x06, 0x82, 0x80, 0x00]).is_err());
}

#[test]
fn chainsync_tip_over_the_wire() {
    let mut client = directory(Direction::Initiator);
    let mut server = directory(Direction::Responder);
    let id = chainsync_n2n::State::protocol_number();
    let mut state: AsyncChannel<chainsync_n2n::State> =
        AsyncChannel::new(Direction::Initiator, chainsync_n2n::State::Idle);
    let ask = chainsync_n2n::Message::FindIntersect(Points(vec![Point::Origin]));
    assert!(state.write_one(&ask));
    assert_eq!(end_mut(&mut client, id, Direction::Initiator).send_one(to_bytes(&ask.to_cbor())), Ok(()));
    let (mut mux, mut demux) = (Mux::new(16_384), Demux::new());
    pump(&mut client, &mut server, &mut mux, &mut demux, 3);
    match end_mut(&mut server, id, Direction::Responder).read_one(decode::<chainsync_n2n::Message>) {
        ReadStep::Message(chainsync_n2n::Message::FindIntersect(points)) => {
            assert_eq!(points.0, vec![Point::Origin])
        }
        _ => panic!("expected the request"),
    }
    let tip = Tip { point: Point::Origin, block_number: 0 };
    let answer = chainsync_n2n::Message::IntersectionNotFound(tip.clone());
    assert_eq!(end_mut(&mut server, id, Direction::Responder).send_one(to_bytes(&answer.to_cbor())), Ok(()));
    let (mut mux, mut demux) = (Mux::new(16_384), Demux::new());
    pump(&mut server, &mut client, &mut mux, &mut demux, 16_384);
    let reply = match end_mut(&mut client, id, Direction::Initiator).read_one(decode::<chainsync_n2n::Message>) {
        ReadStep::Message(m) => m,
        _ => panic!("expected the answer"),
    };
    match state.read_one_match(reply, chainsync_n2n::client_find_intersect_ret) {
        Ok(chainsync_n2n::FindIntersectRet::IntersectionNotFound(t)) => assert_eq!(t, tip),
        _ => panic!("expected the tip"),
    }
    assert_eq!(state.get_state(), chainsync_n2n::State::Idle);
}

#[test]
fn blocks_over_the_wire() {
    let mut client = directory(Direction::Initiator);
    let mut server = directory(Direction::Responder);
    let id = blockfetch::State::protocol_number();
    let mut steps =
        BlockFetchClient::new(AsyncChannel::new(Direction::Initiator, blockfetch::State::Idle));
    assert!(steps.request_range(Point::Origin, Point::Origin).is_some());
    let blocks: Vec<Vec<u8>> = vec![
        (0..70_000u32).map(|v| (v % 253) as u8).collect(),
        vec![1, 2, 3],
        (0..20_000u32).map(|v| (v % 7) as u8).collect(),
    ];
    let mut messages = vec![blockfetch::Message::StartBatch];
    for b in &blocks {
        messages.push(blockfetch::Message::Block(CborBlockData(b.clone())));
    }
    messages.push(blockfetch::Message::BatchDone);
    let (mut mux, mut demux) = (Mux::new(16_384), Demux::new());
    let mut got: Vec<Vec<u8>> = Vec::new();
    let mut started = false;
    let mut done = false;
    for m in messages {
        assert_eq!(end_mut(&mut server, id, Direction::Responder).send_one(to_bytes(&m.to_cbor())), Ok(()));
        pump(&mut server, &mut client, &mut mux, &mut demux, 1000);
        let reply = match end_mut(&mut client, id, Direction::Initiator).read_one(decode::<blockfetch::Message>) {
            ReadStep::Message(m) => m,
            _ => panic!("expected a message"),
        };
        if !started {
            assert!(matches!(steps.range_reply(reply), Ok(blockfetch::RequestRangeRet::StartBatch)));
            started = true;
        } else {
            match steps.next(reply) {
                Ok(Some(block)) => got.push(block.0),
                Ok(None) => done = true,
                Err(_) => panic!("unexpected error"),
            }
        }
    }
    assert!(done);
    assert_eq!(got, blocks);
    assert_eq!(steps.get_state(), blockfetch::State::Idle);
    assert_eq!(end_mut(&mut client, id, Direction::Initiator).received().len(), 0);
}

#[test]
fn illegal_message_over_the_wire() {
    let mut client = directory(Direction::Initiator);
    let mut server = directory(Direction::Responder);
    let id = chainsync_n2n::State::protocol_number();
    let mut state: AsyncChannel<chainsync_n2n::State> =
        AsyncChannel::new(Direction::Initiator, chainsync_n2n::State::Idle);
    let tip = Tip { point: Point::Origin, block_number: 0 };
    let stray = chainsync_n2n::Message::RollForward(chainsync_n2n::CborChainsyncData(vec![0x80]), tip);
    assert_eq!(end_mut(&mut server, id, Direction::Responder).send_one(to_bytes(&stray.to_cbor())), Ok(()));
    let (mut mux, mut demux) = (Mux::new(64), Demux::new());
    pump(&mut server, &mut client, &mut mux, &mut demux, 5);
    let received = match end_mut(&mut client, id, Direction::Initiator).read_one(decode::<chainsync_n2n::Message>) {
        ReadStep::Message(m) => m,
        _ => panic!("expected a message"),
    };
    match state.read_one(received) {
        Err(MessageError::InvalidState { current, msg }) => {
            assert_eq!(current, chainsync_n2n::State::Idle);
            assert!(matches!(msg, chainsync_n2n::Message::RollForward(_, _)));
        }
        _ => panic!("expected an invalid state"),
    }
    assert_eq!(state.get_state(), chainsync_n2n::State::Idle);
}
