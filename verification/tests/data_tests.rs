use meshtassy::data::{Data, PortNum};
use meshtassy::wire::{put_varint, read_field, read_varint, FoundValue};

#[test]
fn data_encodes_fields_in_order() {
    let d = Data {
        portnum: 67,
        payload: vec![0xAA, 0xBB],
        want_response: true,
        dest: 0x0102_0304,
        source: 5,
        request_id: 6,
        reply_id: 7,
        emoji: 1,
        bitfield: Some(300),
    };
    assert_eq!(
        d.encode(),
        vec![
            0x08, 67, 0x12, 2, 0xAA, 0xBB, 0x18, 1, 0x25, 4, 3, 2, 1, 0x2d, 5, 0, 0, 0, 0x35, 6,
            0, 0, 0, 0x3d, 7, 0, 0, 0, 0x45, 1, 0, 0, 0, 0x48, 0xAC, 0x02
        ]
    );
}

#[test]
fn data_round_trips() {
    let d = Data {
        portnum: 5,
        payload: (0u8..100).collect(),
        want_response: false,
        dest: 0,
        source: 0xFFFF_FFFF,
        request_id: 0,
        reply_id: 12345,
        emoji: 0,
        bitfield: Some(0),
    };
    let back = Data::decode(&d.encode()).unwrap();
    assert_eq!(back.portnum, d.portnum);
    assert_eq!(back.payload, d.payload);
    assert_eq!(back.want_response, d.want_response);
    assert_eq!(back.dest, d.dest);
    assert_eq!(back.source, d.source);
    assert_eq!(back.request_id, d.request_id);
    assert_eq!(back.reply_id, d.reply_id);
    assert_eq!(back.emoji, d.emoji);
    assert_eq!(back.bitfield, d.bitfield);
}

#[test]
fn default_data_encodes_to_nothing() {
    assert!(Data::new(0, vec![]).encode().is_empty());
}

#[test]
fn data_decode_skips_unknown_fields_and_takes_last() {
    let bytes = vec![0x08, 1, 0x50, 9, 0x08, 3, 0x7a, 2, 1, 2];
    let d = Data::decode(&bytes).unwrap();
    assert_eq!(d.portnum, 3);
    assert!(d.payload.is_empty());
}

#[test]
fn data_decode_rejects_truncated_and_group_fields() {
    assert!(Data::decode(&[0x12, 5, 1, 2]).is_none());
    assert!(Data::decode(&[0x0b]).is_none());
    assert!(Data::decode(&[0x00, 0x00]).is_none());
    assert!(Data::decode(&[0x25, 1, 2, 3]).is_none());
}

#[test]
fn data_duplicate_copies_everything() {
    let d = Data::new(1, vec![1, 2, 3]);
    let c = d.duplicate();
    assert_eq!(c.payload, vec![1, 2, 3]);
    assert_eq!(c.portnum, 1);
}

#[test]
fn port_numbers_are_classified() {
    assert_eq!(PortNum::from_u32(1), PortNum::TextMessage);
    assert_eq!(PortNum::from_u32(3), PortNum::Position);
    assert_eq!(PortNum::from_u32(4), PortNum::NodeInfo);
    assert_eq!(PortNum::from_u32(5), PortNum::Routing);
    assert_eq!(PortNum::from_u32(67), PortNum::Telemetry);
    assert_eq!(PortNum::from_u32(70), PortNum::Traceroute);
    assert_eq!(PortNum::from_u32(71), PortNum::NeighborInfo);
    assert_eq!(PortNum::from_u32(0), PortNum::Other);
    assert_eq!(PortNum::from_u32(256), PortNum::Other);
}

#[test]
fn varint_round_trips_at_the_edges() {
    for v in [0u64, 1, 127, 128, 300, 16383, 16384, u32::MAX as u64, u64::MAX] {
        let mut out = vec![0xEE];
        put_varint(&mut out, v);
        assert_eq!(read_varint(&out, 1), Some((v, out.len())));
    }
    let mut out = Vec::new();
    put_varint(&mut out, 300);
    assert_eq!(out, vec![0xAC, 0x02]);
    let mut max = Vec::new();
    put_varint(&mut max, u64::MAX);
    assert_eq!(max.len(), 10);
}

#[test]
fn varint_rejects_overlong_and_truncated() {
    assert_eq!(read_varint(&[0x80], 0), None);
    assert_eq!(read_varint(&[], 0), None);
    assert_eq!(read_varint(&[0xFF; 11], 0), None);
    assert_eq!(read_varint(&[0xFF, 0xFF, 0xFF, 0xFF, 0xFF, 0xFF, 0xFF, 0xFF, 0xFF, 0x02], 0), None);
    assert_eq!(read_varint(&[0x80, 0x00], 0), Some((0, 2)));
}

#[test]
fn fields_of_each_wire_type_are_read() {
    let f = read_field(&[0x08, 0x96, 0x01], 0).unwrap();
    assert_eq!((f.number, f.value, f.next), (1, FoundValue::Varint(150), 3));
    let f = read_field(&[0x15, 1, 2, 3, 4], 0).unwrap();
    assert_eq!((f.number, f.value, f.next), (2, FoundValue::Fixed32(0x0403_0201), 5));
    let f = read_field(&[0x1a, 2, 9, 8], 0).unwrap();
    assert_eq!((f.number, f.value, f.next), (3, FoundValue::Bytes { start: 2, end: 4 }, 4));
    let f = read_field(&[0x21, 1, 2, 3, 4, 5, 6, 7, 8], 0).unwrap();
    assert_eq!((f.number, f.value, f.next), (4, FoundValue::Fixed64 { start: 1 }, 9));
    assert!(read_field(&[0x0c], 0).is_none());
}
