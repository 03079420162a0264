use meshtassy::header::{Header, HeaderFlags};
use meshtassy::key::{ChannelKey, KeyError};

const COUNTER: [u8; 16] = [
    0xf0, 0xf1, 0xf2, 0xf3, 0xf4, 0xf5, 0xf6, 0xf7, 0xf8, 0xf9, 0xfa, 0xfb, 0xfc, 0xfd, 0xfe, 0xff,
];

const PLAIN: [u8; 16] = [
    0x6b, 0xc1, 0xbe, 0xe2, 0x2e, 0x40, 0x9f, 0x96, 0xe9, 0x3d, 0x7e, 0x11, 0x73, 0x93, 0x17, 0x2a,
];

#[test]
fn aes128_ctr_matches_published_vector() {
    let key = ChannelKey {
        material: vec![
            0x2b, 0x7e, 0x15, 0x16, 0x28, 0xae, 0xd2, 0xa6, 0xab, 0xf7, 0x15, 0x88, 0x09, 0xcf,
            0x4f, 0x3c,
        ],
        selector: 0,
    };
    let mut data = PLAIN.to_vec();
    assert_eq!(key.transform(&mut data, &COUNTER), Ok(()));
    assert_eq!(
        data,
        vec![
            0x87, 0x4d, 0x61, 0x91, 0xb6, 0x20, 0xe3, 0x26, 0x1b, 0xef, 0x68, 0x64, 0x99, 0x0d,
            0xb6, 0xce
        ]
    );
}

#[test]
fn aes256_ctr_matches_published_vector() {
    let key = ChannelKey {
        material: vec![
            0x60, 0x3d, 0xeb, 0x10, 0x15, 0xca, 0x71, 0xbe, 0x2b, 0x73, 0xae, 0xf0, 0x85, 0x7d,
            0x77, 0x81, 0x1f, 0x35, 0x2c, 0x07, 0x3b, 0x61, 0x08, 0xd7, 0x2d, 0x98, 0x10, 0xa3,
            0x09, 0x14, 0xdf, 0xf4,
        ],
        selector: 0,
    };
    let mut data = PLAIN.to_vec();
    assert_eq!(key.transform(&mut data, &COUNTER), Ok(()));
    assert_eq!(
        data,
        vec![
            0x60, 0x1e, 0xc3, 0x13, 0x77, 0x57, 0x89, 0xa5, 0xb7, 0xa7, 0xf5, 0x04, 0xbb, 0xf3,
            0xd2, 0x28
        ]
    );
}

#[test]
fn transform_twice_gives_the_data_back() {
    let key = ChannelKey::from_bytes(&[0x01], 1).unwrap();
    let nonce = [7, 0, 0, 0, 0x44, 0x33, 0x22, 0x11, 0, 0, 0, 0, 0, 0, 0, 0];
    let original: Vec<u8> = (0u8..=200).collect();
    let mut data = original.clone();
    key.transform(&mut data, &nonce).unwrap();
    assert_ne!(data, original);
    assert_eq!(data.len(), original.len());
    key.transform(&mut data, &nonce).unwrap();
    assert_eq!(data, original);
}

#[test]
fn one_byte_key_is_default_key_with_last_byte_replaced() {
    let short = ChannelKey::from_bytes(&[0x5A], 1).unwrap();
    let long = ChannelKey::from_bytes(
        &[
            0xd4, 0xf1, 0xbb, 0x3a, 0x20, 0x29, 0x07, 0x59, 0xf0, 0xbc, 0xff, 0xab, 0xcf, 0x4e,
            0x69, 0x5A,
        ],
        16,
    )
    .unwrap();
    let nonce = [1u8; 16];
    let mut a = vec![0u8; 40];
    let mut b = vec![0u8; 40];
    short.transform(&mut a, &nonce).unwrap();
    long.transform(&mut b, &nonce).unwrap();
    assert_eq!(a, b);
    assert_ne!(a, vec![0u8; 40]);
}

#[test]
fn different_nonce_gives_different_keystream() {
    let key = ChannelKey::from_bytes(&[0x01], 1).unwrap();
    let mut a = vec![0u8; 16];
    let mut b = vec![0u8; 16];
    key.transform(&mut a, &[0u8; 16]).unwrap();
    key.transform(&mut b, &[1u8; 16]).unwrap();
    assert_ne!(a, b);
}

#[test]
fn key_constructor_accepts_supported_lengths() {
    let bytes = [7u8; 40];
    assert_eq!(ChannelKey::from_bytes(&bytes, 1).unwrap().material, vec![7u8; 1]);
    assert_eq!(ChannelKey::from_bytes(&bytes, 16).unwrap().material, vec![7u8; 16]);
    assert_eq!(ChannelKey::from_bytes(&bytes, 32).unwrap().material, vec![7u8; 32]);
    assert_eq!(ChannelKey::from_bytes(&bytes, 16).unwrap().selector, 0);
}

#[test]
fn key_constructor_rejects_other_lengths() {
    let bytes = [7u8; 40];
    assert!(ChannelKey::from_bytes(&bytes, 0).is_none());
    assert!(ChannelKey::from_bytes(&bytes, 2).is_none());
    assert!(ChannelKey::from_bytes(&bytes, 24).is_none());
    assert!(ChannelKey::from_bytes(&bytes, 33).is_none());
    assert!(ChannelKey::from_bytes(&bytes[..8], 16).is_none());
}

#[test]
fn transform_fails_on_unsupported_material_and_leaves_data() {
    let key = ChannelKey { material: vec![1, 2, 3], selector: 0 };
    let mut data = vec![9u8; 5];
    assert_eq!(key.transform(&mut data, &[0u8; 16]), Err(KeyError::UnsupportedLength));
    assert_eq!(data, vec![9u8; 5]);
}

#[test]
fn selector_picks_frames_by_channel_hash() {
    let key = ChannelKey::with_selector(&[1], 1, 8).unwrap();
    let mut h = Header {
        destination: 1,
        source: 2,
        packet_id: 3,
        flags: HeaderFlags { hop_limit: 0, hop_start: 0, want_ack: false, via_mqtt: false },
        channel_hash: 8,
        next_hop: 0,
        relay_node: 0,
    };
    assert!(key.selects(&h));
    h.channel_hash = 9;
    assert!(!key.selects(&h));
}
