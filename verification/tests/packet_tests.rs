use meshtassy::data::{Data, PortNum, PORT_TEXT_MESSAGE};
use meshtassy::header::{Header, HeaderFlags};
use meshtassy::key::ChannelKey;
use meshtassy::packet::{
    create_text_message_packet, encode_frame, handle_received_packet, DecryptedPacket,
    EncryptedPacket, FrameError,
};

fn header() -> Header {
    Header {
        destination: 0xFFFF_FFFF,
        source: 0x1122_3344,
        packet_id: 7,
        flags: HeaderFlags { hop_limit: 3, hop_start: 3, want_ack: false, via_mqtt: false },
        channel_hash: 8,
        next_hop: 0,
        relay_node: 0,
    }
}

#[test]
fn text_message_round_trips_through_encryption() {
    let frame = create_text_message_packet(&header(), b"hi", &[0x01], 1).unwrap();
    assert_eq!(frame.len(), 16 + 8);
    assert_eq!(&frame[..16], &header().to_bytes());
    assert_ne!(&frame[16..], &[0x08, 0x01, 0x12, 0x02, 0x68, 0x69, 0x48, 0x00]);
    let key = ChannelKey::from_bytes(&[0x01], 1).unwrap();
    let decoded = handle_received_packet(&frame, -50, 10, &key).unwrap();
    assert_eq!(decoded.header, header());
    assert_eq!(decoded.rssi, -50);
    assert_eq!(decoded.snr, 10);
    assert_eq!(decoded.port_num(), PortNum::TextMessage);
    assert_eq!(decoded.data.portnum, PORT_TEXT_MESSAGE);
    assert_eq!(decoded.data.payload, b"hi".to_vec());
    assert_eq!(decoded.data.bitfield, Some(0));
}

#[test]
fn phases_are_taken_one_by_one() {
    let frame = create_text_message_packet(&header(), b"hi", &[0x01], 1).unwrap();
    let key = ChannelKey::from_bytes(&[0x01], 1).unwrap();
    let encrypted = EncryptedPacket::from_bytes(&frame, 1, 2).unwrap();
    assert_eq!(*encrypted.header(), header());
    assert_eq!(encrypted.ciphertext().len(), 8);
    assert_eq!(encrypted.to_bytes(), frame);
    let decrypted = encrypted.decrypt(&key).unwrap();
    assert_eq!(decrypted.plaintext(), &vec![0x08, 0x01, 0x12, 0x02, 0x68, 0x69, 0x48, 0x00]);
    let decoded = decrypted.decode().unwrap();
    assert_eq!(decoded.data.payload, b"hi".to_vec());
    assert_eq!(decoded.encode().plaintext(), &vec![0x08, 0x01, 0x12, 0x02, 0x68, 0x69, 0x48, 0x00]);
}

#[test]
fn encrypt_then_decrypt_is_identity() {
    let key = ChannelKey::from_bytes(&[9u8; 32], 32).unwrap();
    let plain = DecryptedPacket::new(header(), 0, 0, vec![1, 2, 3, 4, 5]);
    let encrypted = plain.encrypt(&key).unwrap();
    assert_ne!(encrypted.ciphertext(), &vec![1, 2, 3, 4, 5]);
    let back = encrypted.decrypt(&key).unwrap();
    assert_eq!(back.plaintext(), &vec![1, 2, 3, 4, 5]);
}

#[test]
fn short_frame_is_a_header_error() {
    let key = ChannelKey::from_bytes(&[0x01], 1).unwrap();
    assert_eq!(handle_received_packet(&[0u8; 15], 0, 0, &key).err(), Some(FrameError::Header));
    assert!(EncryptedPacket::from_bytes(&[0u8; 3], 0, 0).is_none());
}

#[test]
fn bad_hops_are_a_header_error() {
    let key = ChannelKey::from_bytes(&[0x01], 1).unwrap();
    let mut frame = create_text_message_packet(&header(), b"hi", &[0x01], 1).unwrap();
    frame[12] = (5 << 5) | (3 << 2);
    assert_eq!(handle_received_packet(&frame, 0, 0, &key).err(), Some(FrameError::Header));
}

#[test]
fn unusable_key_is_a_key_error() {
    let frame = create_text_message_packet(&header(), b"hi", &[0x01], 1).unwrap();
    let key = ChannelKey { material: vec![1, 2], selector: 0 };
    assert_eq!(handle_received_packet(&frame, 0, 0, &key).err(), Some(FrameError::Key));
}

#[test]
fn wrong_key_gives_a_payload_error_or_other_data() {
    let frame = create_text_message_packet(&header(), b"hello mesh", &[0x01], 1).unwrap();
    let key = ChannelKey::from_bytes(&[0x02], 1).unwrap();
    match handle_received_packet(&frame, 0, 0, &key) {
        Err(e) => assert_eq!(e, FrameError::Payload),
        Ok(p) => assert_ne!(p.data.payload, b"hello mesh".to_vec()),
    }
}

#[test]
fn malformed_payload_is_a_payload_error() {
    let plain = DecryptedPacket::new(header(), 0, 0, vec![0x08]);
    assert_eq!(plain.decode().err(), Some(FrameError::Payload));
    let wrong_type = DecryptedPacket::new(header(), 0, 0, vec![0x0d, 1, 0, 0, 0]);
    assert_eq!(wrong_type.decode().err(), Some(FrameError::Payload));
}

#[test]
fn empty_payload_decodes_to_defaults() {
    let decoded = DecryptedPacket::new(header(), 0, 0, vec![]).decode().unwrap();
    assert_eq!(decoded.data.portnum, 0);
    assert!(decoded.data.payload.is_empty());
    assert_eq!(decoded.data.bitfield, None);
    assert_eq!(decoded.port_num(), PortNum::Other);
}

#[test]
fn text_message_that_is_too_long_is_refused() {
    let long = vec![b'x'; 240];
    assert!(create_text_message_packet(&header(), &long, &[0x01], 1).is_none());
    let fits = vec![b'x'; 233];
    let frame = create_text_message_packet(&header(), &fits, &[0x01], 1).unwrap();
    assert_eq!(frame.len(), 256);
    assert!(create_text_message_packet(&header(), &vec![b'x'; 234], &[0x01], 1).is_none());
}

#[test]
fn text_message_with_unsupported_key_is_refused() {
    assert!(create_text_message_packet(&header(), b"hi", &[1, 2, 3], 3).is_none());
    assert!(create_text_message_packet(&header(), b"hi", &[1], 16).is_none());
}

#[test]
fn encode_frame_is_header_then_ciphertext() {
    let key = ChannelKey::from_bytes(&[0x01], 1).unwrap();
    let data = Data::new(PORT_TEXT_MESSAGE, b"hi".to_vec());
    let frame = encode_frame(&header(), &data, &key).unwrap();
    assert_eq!(&frame[..16], &header().to_bytes());
    let decoded = handle_received_packet(&frame, 0, 0, &key).unwrap();
    assert_eq!(decoded.data.payload, b"hi".to_vec());
    assert_eq!(decoded.data.bitfield, None);
}
