use meshtassy::data::{Data, PORT_NODEINFO, PORT_POSITION, PORT_TELEMETRY, PORT_TEXT_MESSAGE};
use meshtassy::header::{Header, HeaderFlags};
use meshtassy::messages::{decode_telemetry, to_signed32, DeviceMetrics, Position, User};
use meshtassy::node_database::NodeDatabase;
use meshtassy::packet::DecodedPacket;

fn packet(source: u32, port: u32, payload: Vec<u8>, snr: i8) -> DecodedPacket {
    DecodedPacket {
        header: Header {
            destination: 0xFFFF_FFFF,
            source,
            packet_id: 1,
            flags: HeaderFlags { hop_limit: 3, hop_start: 3, want_ack: false, via_mqtt: false },
            channel_hash: 8,
            next_hop: 0,
            relay_node: 0,
        },
        rssi: -40,
        snr,
        data: Data::new(port, payload),
    }
}

fn user_payload() -> Vec<u8> {
    vec![0x0a, 2, b'!', b'a', 0x12, 3, b'B', b'o', b'b', 0x1a, 1, b'B', 0x28, 9, 0x30, 1, 0x38, 2]
}

fn position_payload() -> Vec<u8> {
    vec![0x0d, 0xFF, 0xFF, 0xFF, 0xFF, 0x15, 10, 0, 0, 0, 0x18, 100, 0x25, 5, 0, 0, 0, 0x28, 2]
}

fn telemetry_payload() -> Vec<u8> {
    vec![0x0d, 1, 0, 0, 0, 0x12, 9, 0x08, 88, 0x15, 0, 0, 0x80, 0x40, 0x28, 60]
}

#[test]
fn user_is_decoded() {
    let u = User::decode(&user_payload()).unwrap();
    assert_eq!(u.long_name, b"Bob".to_vec());
    assert_eq!(u.short_name, b"B".to_vec());
    assert_eq!((u.hw_model, u.is_licensed, u.role), (9, true, 2));
    assert!(User::decode(&[0x12, 9, 1]).is_none());
    assert!(User::decode(&[0x10, 1]).is_none());
    assert_eq!(User::decode(&[]).unwrap().long_name, Vec::<u8>::new());
    assert_eq!(u.duplicate().long_name, u.long_name);
}

#[test]
fn position_is_decoded() {
    let p = Position::decode(&position_payload()).unwrap();
    assert_eq!(p, Position { latitude_i: -1, longitude_i: 10, altitude: 100, time: 5, location_source: 2 });
    assert_eq!(Position::decode(&[0x08, 1]), None);
    let negative_altitude = vec![0x18, 0xFF, 0xFF, 0xFF, 0xFF, 0xFF, 0xFF, 0xFF, 0xFF, 0xFF, 0x01];
    assert_eq!(Position::decode(&negative_altitude).unwrap().altitude, -1);
    assert_eq!(to_signed32(0x8000_0000), i32::MIN);
    assert_eq!(to_signed32(0x7FFF_FFFF), i32::MAX);
}

#[test]
fn telemetry_metrics_are_decoded() {
    let m = decode_telemetry(&telemetry_payload()).unwrap().unwrap();
    assert_eq!(
        m,
        DeviceMetrics {
            battery_level: 88,
            voltage_bits: 0x4080_0000,
            channel_utilization_bits: 0,
            air_util_tx_bits: 0,
            uptime_seconds: 60,
        }
    );
    assert_eq!(decode_telemetry(&[0x0d, 1, 0, 0, 0]), Some(None));
    assert_eq!(decode_telemetry(&[0x12, 1, 0x08]), None);
    assert_eq!(decode_telemetry(&[0x10, 1]), None);
    assert_eq!(DeviceMetrics::decode(&[0x0d, 0, 0, 0, 0]), None);
}

#[test]
fn new_node_is_inserted() {
    let mut db = NodeDatabase::new();
    assert_eq!(db.len(), 0);
    assert!(db.add_or_update_node_from_packet(&packet(7, PORT_TEXT_MESSAGE, vec![1], 4), 100));
    assert_eq!(db.len(), 1);
    let n = db.get_node(7).unwrap();
    assert_eq!((n.num, n.snr, n.last_heard, n.channel), (7, 4, 100, 8));
    assert!(n.user.is_none() && n.position.is_none() && n.device_metrics.is_none());
    assert!(db.get_node(8).is_none());
}

#[test]
fn reserved_sources_are_not_recorded() {
    let mut db = NodeDatabase::new();
    assert!(!db.add_or_update_node_from_packet(&packet(0, PORT_TEXT_MESSAGE, vec![], 0), 1));
    assert!(!db.add_or_update_node_from_packet(&packet(0xFFFF_FFFF, PORT_TEXT_MESSAGE, vec![], 0), 1));
    assert_eq!(db.len(), 0);
}

#[test]
fn fields_are_merged() {
    let mut db = NodeDatabase::new();
    db.add_or_update_node_from_packet(&packet(7, PORT_NODEINFO, user_payload(), 1), 10);
    db.add_or_update_node_from_packet(&packet(7, PORT_POSITION, position_payload(), 2), 20);
    db.add_or_update_node_from_packet(&packet(7, PORT_TELEMETRY, telemetry_payload(), 3), 30);
    db.add_or_update_node_from_packet(&packet(7, PORT_TEXT_MESSAGE, vec![1, 2], -4), 40);
    db.add_or_update_node_from_packet(&packet(7, PORT_NODEINFO, vec![0x12, 9], -5), 50);
    assert_eq!(db.len(), 1);
    let n = db.get_node(7).unwrap();
    assert_eq!(n.user.as_ref().unwrap().long_name, b"Bob".to_vec());
    assert_eq!(n.position.unwrap().altitude, 100);
    assert_eq!(n.device_metrics.unwrap().battery_level, 88);
    assert_eq!((n.snr, n.last_heard), (-5, 50));
    db.add_or_update_node_from_packet(&packet(7, PORT_NODEINFO, vec![0x12, 2, b'A', b'l'], 0), 60);
    assert_eq!(db.get_node(7).unwrap().user.as_ref().unwrap().long_name, b"Al".to_vec());
    assert_eq!(db.get_node(7).unwrap().position.unwrap().altitude, 100);
}

#[test]
fn least_recently_heard_is_evicted_when_full() {
    let mut db = NodeDatabase::with_capacity(3);
    db.add_or_update_node_from_packet(&packet(1, 1, vec![], 0), 50);
    db.add_or_update_node_from_packet(&packet(2, 1, vec![], 0), 20);
    db.add_or_update_node_from_packet(&packet(3, 1, vec![], 0), 20);
    db.add_or_update_node_from_packet(&packet(4, 1, vec![], 0), 60);
    assert_eq!(db.len(), 3);
    assert!(db.get_node(2).is_none());
    let order: Vec<u32> = db.get_nodes().iter().map(|n| n.num).collect();
    assert_eq!(order, vec![1, 3, 4]);
    db.add_or_update_node_from_packet(&packet(3, 1, vec![], 0), 70);
    db.add_or_update_node_from_packet(&packet(5, 1, vec![], 0), 80);
    let order: Vec<u32> = db.get_nodes().iter().map(|n| n.num).collect();
    assert_eq!(order, vec![3, 4, 5]);
}

#[test]
fn default_capacity_is_bounded() {
    let mut db = NodeDatabase::new();
    for i in 1..=40u32 {
        db.add_or_update_node_from_packet(&packet(i, 1, vec![], 0), i);
    }
    assert_eq!(db.len(), 32);
    assert!(db.get_node(8).is_none());
    assert!(db.get_node(9).is_some());
    let mut one = NodeDatabase::with_capacity(0);
    one.add_or_update_node_from_packet(&packet(1, 1, vec![], 0), 1);
    one.add_or_update_node_from_packet(&packet(2, 1, vec![], 0), 2);
    assert_eq!(one.len(), 1);
    assert!(one.get_node(2).is_some());
}
