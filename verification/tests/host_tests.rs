use meshtassy::data::{Data, PORT_NODEINFO, PORT_TEXT_MESSAGE};
use meshtassy::header::{Header, HeaderFlags};
use meshtassy::host::{
    chunk_bounds, create_channel_packet, create_config_complete_packet, create_config_packet,
    create_mesh_packet_from_data, create_module_config_packet, create_my_node_info_packet,
    create_node_info_packet, create_node_info_packet_from_db, decode_to_radio, forward_decision,
    get_next_packet_id, plan_config_burst, port_name, serial_frame, serial_frame_header,
    split_serial_frame, Forward, HostReply, ToRadio,
};
use meshtassy::messages::{Position, User};
use meshtassy::node_database::NodeInfo;
use meshtassy::data::PortNum;
use meshtassy::packet::DecodedPacket;
use meshtassy::telemetry::{SensorRotation, SensorVariants};

fn packet(port: u32) -> DecodedPacket {
    DecodedPacket {
        header: Header {
            destination: 0xFFFF_FFFF,
            source: 0x0102_0304,
            packet_id: 9,
            flags: HeaderFlags { hop_limit: 2, hop_start: 3, want_ack: true, via_mqtt: false },
            channel_hash: 8,
            next_hop: 0,
            relay_node: 5,
        },
        rssi: -3,
        snr: 5,
        data: Data::new(port, vec![b'h', b'i']),
    }
}

fn node(num: u32) -> NodeInfo {
    NodeInfo { num, user: None, position: None, device_metrics: None, snr: 0, last_heard: 0, channel: 0 }
}

#[test]
fn serial_frame_has_magic_and_big_endian_length() {
    assert_eq!(serial_frame_header(0x0102), [0x94, 0xC3, 1, 2]);
    assert_eq!(serial_frame(&[7, 8, 9]).unwrap(), vec![0x94, 0xC3, 0, 3, 7, 8, 9]);
    assert_eq!(serial_frame(&[]).unwrap(), vec![0x94, 0xC3, 0, 0]);
    assert!(serial_frame(&vec![0u8; 65536]).is_none());
    assert_eq!(serial_frame(&vec![0u8; 65535]).unwrap().len(), 65539);
}

#[test]
fn serial_frame_is_taken_apart_again() {
    let mut stream = serial_frame(&[7, 8, 9]).unwrap();
    stream.extend_from_slice(&[0x94, 0xC3]);
    assert_eq!(split_serial_frame(&stream), Some((vec![7, 8, 9], 7)));
    assert_eq!(split_serial_frame(&stream[..6]), None);
    assert_eq!(split_serial_frame(&[0x94, 0xC4, 0, 0]), None);
    assert_eq!(split_serial_frame(&[0x94, 0xC3, 0]), None);
    assert_eq!(split_serial_frame(&[0x94, 0xC3, 0, 0]), Some((vec![], 4)));
}

#[test]
fn chunks_are_sixty_four_bytes() {
    assert_eq!(chunk_bounds(130, 0), (0, 64));
    assert_eq!(chunk_bounds(130, 1), (64, 128));
    assert_eq!(chunk_bounds(130, 2), (128, 130));
    assert_eq!(chunk_bounds(64, 0), (0, 64));
    assert_eq!(chunk_bounds(1, 0), (0, 1));
}

#[test]
fn packet_ids_wrap_to_one() {
    assert_eq!(get_next_packet_id(1), (1, 2));
    assert_eq!(get_next_packet_id(0x7FFF_FFFE), (0x7FFF_FFFE, 0x7FFF_FFFF));
    assert_eq!(get_next_packet_id(0x7FFF_FFFF), (0x7FFF_FFFF, 1));
    assert_eq!(get_next_packet_id(u32::MAX), (u32::MAX, 1));
}

#[test]
fn host_requests_are_decoded() {
    assert_eq!(decode_to_radio(&[0x18, 0xAC, 0x02]), Some(ToRadio::WantConfigId(300)));
    assert_eq!(decode_to_radio(&[0x3a, 0]), Some(ToRadio::Heartbeat));
    assert_eq!(decode_to_radio(&[0x0a, 1, 0]), Some(ToRadio::Other));
    assert_eq!(decode_to_radio(&[]), Some(ToRadio::Other));
    assert_eq!(decode_to_radio(&[0x18, 1, 0x3a, 0]), Some(ToRadio::Heartbeat));
    assert_eq!(decode_to_radio(&[0x18]), None);
    assert_eq!(decode_to_radio(&[0x1d, 1, 0, 0, 0]), None);
}

#[test]
fn config_burst_is_in_order_and_skips_own_record() {
    let nodes = vec![node(5), node(0xDEAD_BEEF), node(6)];
    assert_eq!(
        plan_config_burst(&nodes, 0xDEAD_BEEF, 77),
        vec![
            HostReply::MyNodeInfo,
            HostReply::OwnNodeInfo,
            HostReply::PeerNodeInfo(5),
            HostReply::PeerNodeInfo(6),
            HostReply::Config,
            HostReply::ModuleConfig,
            HostReply::Channel,
            HostReply::ConfigComplete(77),
        ]
    );
    assert_eq!(plan_config_burst(&vec![], 1, 0).len(), 6);
}

#[test]
fn ports_decide_what_is_forwarded() {
    assert_eq!(forward_decision(&packet(PORT_NODEINFO)), Forward::NodeRecord);
    assert_eq!(forward_decision(&packet(PORT_TEXT_MESSAGE)), Forward::MeshPacket);
    assert_eq!(forward_decision(&packet(70)), Forward::MeshPacket);
    assert_eq!(forward_decision(&packet(71)), Forward::MeshPacket);
    assert_eq!(forward_decision(&packet(6)), Forward::Nothing);
    assert_eq!(port_name(PortNum::Telemetry), "TELEMETRY");
    assert_eq!(port_name(PortNum::TextMessage), "TEXT");
    assert_eq!(port_name(PortNum::Other), "OTHER");
}

#[test]
fn config_complete_message_bytes() {
    assert_eq!(create_config_complete_packet(5, 300), vec![0x08, 5, 0x38, 0xAC, 0x02]);
    assert_eq!(create_config_complete_packet(0, 0), vec![0x38, 0]);
}

#[test]
fn fixed_messages_have_their_bytes() {
    assert_eq!(create_module_config_packet(1), vec![0x08, 1, 0x4a, 2, 0x0a, 0]);
    assert_eq!(create_config_packet(2), vec![0x08, 2, 0x2a, 5, 0x0a, 3, 0x38, 0x84, 0x07]);
    assert_eq!(
        create_channel_packet(3),
        vec![0x08, 3, 0x52, 17, 0x12, 13, 0x12, 1, 1, 0x1a, 8, b'L', b'o', b'n', b'g', b'F', b'a', b's', b't', 0x18, 1]
    );
    let mine = create_my_node_info_packet(4);
    assert_eq!(&mine[..4], &[0x08, 4, 0x1a, 42]);
    assert_eq!(&mine[4..10], &[0x08, 0xEF, 0xFD, 0xB6, 0xF5, 0x0D]);
    assert_eq!(&mine[10..16], &[0x40, 42, 0x58, 0xF8, 0xEB, 0x01]);
    assert_eq!(&mine[16..31], b"\x62\x0dEMBASSY_NRF52");
    assert_eq!(&mine[31..], b"\x6a\x0dembassy_nrf52");
    let own = create_node_info_packet(5);
    assert_eq!(&own[..4], &[0x08, 5, 0x22, 44]);
    assert_eq!(&own[10..12], &[0x12, 34]);
    assert_eq!(&own[12..23], b"\x0a\x09!deadbeef");
    assert_eq!(&own[own.len() - 4..], &[0x48, 0, 0x48, 0]);
}

#[test]
fn peer_record_message_bytes() {
    let bare = node(7);
    assert_eq!(create_node_info_packet_from_db(1, &bare, 0), vec![0x08, 1, 0x22, 4, 0x08, 7, 0x48, 1]);
    let full = NodeInfo {
        num: 7,
        user: Some(User { long_name: b"Bob".to_vec(), short_name: b"B".to_vec(), hw_model: 9, role: 0, is_licensed: true }),
        position: Some(Position { latitude_i: -1, longitude_i: 2, altitude: 3, time: 0, location_source: 0 }),
        device_metrics: None,
        snr: 0,
        last_heard: 0x0102_0304,
        channel: 0,
    };
    assert_eq!(
        create_node_info_packet_from_db(1, &full, 0x40A0_0000),
        vec![
            0x08, 1, 0x22, 44, 0x08, 7, 0x12, 14, 0x12, 3, b'B', b'o', b'b', 0x1a, 1, b'B', 0x28,
            9, 0x30, 1, 0x48, 0, 0x1a, 12, 0x0d, 0xFF, 0xFF, 0xFF, 0xFF, 0x15, 2, 0, 0, 0, 0x18,
            3, 0x25, 0, 0, 0xA0, 0x40, 0x2d, 4, 3, 2, 1, 0x48, 1
        ]
    );
}

#[test]
fn mesh_packet_message_bytes() {
    assert!(create_mesh_packet_from_data(1, &packet(PORT_NODEINFO), 0).is_none());
    assert!(create_mesh_packet_from_data(1, &packet(6), 0).is_none());
    let out = create_mesh_packet_from_data(1, &packet(PORT_TEXT_MESSAGE), 0x40A0_0000).unwrap();
    assert_eq!(
        out,
        vec![
            0x08, 1, 0x12, 58, 0x0d, 4, 3, 2, 1, 0x15, 0xFF, 0xFF, 0xFF, 0xFF, 0x22, 16, 0x08, 1,
            0x12, 2, b'h', b'i', 0x25, 0xFF, 0xFF, 0xFF, 0xFF, 0x2d, 4, 3, 2, 1, 0x35, 9, 0, 0,
            0, 0x45, 0, 0, 0xA0, 0x40, 0x48, 2, 0x50, 1, 0x60, 0xFD, 0xFF, 0xFF, 0xFF, 0xFF, 0xFF,
            0xFF, 0xFF, 0xFF, 0x01, 0x78, 3, 0x98, 0x01, 5
        ]
    );
}

#[test]
fn sensors_take_turns() {
    let mut r = SensorRotation::new();
    assert_eq!(r.next_sensor(), None);
    r.add();
    r.add();
    r.add();
    let picks: Vec<Option<usize>> = (0..7).map(|_| r.next_sensor()).collect();
    assert_eq!(picks, vec![Some(0), Some(1), Some(2), Some(0), Some(1), Some(2), Some(0)]);
    assert_eq!(r, SensorRotation { count: 3, idx: 1 });
    assert_ne!(SensorVariants::AirQuality, SensorVariants::Environmental);
}
