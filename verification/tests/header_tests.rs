use meshtassy::header::{Header, HeaderFlags, BROADCAST_ADDR};

fn sample() -> Header {
    Header {
        destination: BROADCAST_ADDR,
        source: 0x1122_3344,
        packet_id: 7,
        flags: HeaderFlags { hop_limit: 3, hop_start: 3, want_ack: false, via_mqtt: false },
        channel_hash: 8,
        next_hop: 0,
        relay_node: 0,
    }
}

#[test]
fn header_serializes_little_endian() {
    let bytes = sample().to_bytes();
    assert_eq!(
        bytes,
        [0xFF, 0xFF, 0xFF, 0xFF, 0x44, 0x33, 0x22, 0x11, 7, 0, 0, 0, 0x6C, 8, 0, 0]
    );
}

#[test]
fn header_round_trips() {
    let h = sample();
    assert_eq!(Header::from_bytes(&h.to_bytes()), Some(h));
}

#[test]
fn header_round_trips_with_all_bits() {
    let h = Header {
        destination: 0x0102_0304,
        source: 0xA1B2_C3D4,
        packet_id: 0xFFFF_FFFE,
        flags: HeaderFlags { hop_limit: 5, hop_start: 7, want_ack: true, via_mqtt: true },
        channel_hash: 0xFF,
        next_hop: 0x12,
        relay_node: 0x34,
    };
    let bytes = h.to_bytes();
    assert_eq!(bytes[12], (5 << 5) | (7 << 2) | 2 | 1);
    assert_eq!(Header::from_bytes(&bytes), Some(h));
}

#[test]
fn bytes_round_trip_through_header() {
    let bytes: [u8; 16] = [1, 2, 3, 4, 5, 6, 7, 8, 9, 10, 11, 12, 0x4B, 14, 15, 16];
    let h = Header::from_bytes(&bytes).unwrap();
    assert_eq!(h.flags.hop_limit, 2);
    assert_eq!(h.flags.hop_start, 2);
    assert!(h.flags.want_ack);
    assert!(h.flags.via_mqtt);
    assert_eq!(h.to_bytes(), bytes);
}

#[test]
fn header_parse_rejects_short_buffer() {
    let bytes = sample().to_bytes();
    assert_eq!(Header::from_bytes(&bytes[..15]), None);
    assert_eq!(Header::from_bytes(&[]), None);
}

#[test]
fn header_parse_rejects_hop_limit_above_start() {
    let mut bytes = sample().to_bytes();
    bytes[12] = (4 << 5) | (3 << 2);
    assert_eq!(Header::from_bytes(&bytes), None);
}

#[test]
fn header_parse_ignores_trailing_bytes() {
    let mut long = sample().to_bytes().to_vec();
    long.extend_from_slice(&[9, 9, 9]);
    assert_eq!(Header::from_bytes(&long), Some(sample()));
}

#[test]
fn flags_pack_masks_to_three_bits() {
    let f = HeaderFlags { hop_limit: 9, hop_start: 15, want_ack: false, via_mqtt: true };
    assert_eq!(f.to_byte(), (1 << 5) | (7 << 2) | 1);
}

#[test]
fn flags_unpack_every_field() {
    let f = HeaderFlags::from_byte(0b1010_1110);
    assert_eq!(f, HeaderFlags { hop_limit: 5, hop_start: 3, want_ack: true, via_mqtt: false });
}

#[test]
fn nonce_is_id_then_source_then_zeros() {
    let iv = sample().create_iv();
    assert_eq!(iv, [7, 0, 0, 0, 0x44, 0x33, 0x22, 0x11, 0, 0, 0, 0, 0, 0, 0, 0]);
}

#[test]
fn hop_taken_decrements_and_stops_at_zero() {
    let h = sample().with_hop_taken();
    assert_eq!(h.flags.hop_limit, 2);
    assert_eq!(h.flags.hop_start, 3);
    let mut z = sample();
    z.flags.hop_limit = 0;
    assert_eq!(z.with_hop_taken().flags.hop_limit, 0);
}
