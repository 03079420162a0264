use meshtassy::airtime::LoraConfig;
use meshtassy::data::{Data, PORT_NODEINFO, PORT_POSITION, PORT_ROUTING, PORT_TELEMETRY, PORT_TEXT_MESSAGE};
use meshtassy::header::{Header, HeaderFlags};
use meshtassy::packet::DecodedPacket;
use meshtassy::policy::{
    busy_backoff, get_max_retransmissions, get_packet_priority, packet_wants_ack,
    priority_delay_multiplier, relay_delay, retry_interval, OUR_NODE_ID,
};
use meshtassy::relay::{calculate_packet_airtime, Intake, RelayState, TxPlan, Verdict};
use meshtassy::relay_task::{
    get_relay_queue_status, get_relay_stats, is_relay_initialized, reset_relay_stats,
    trigger_retransmission,
};
use meshtassy::stats::{RelayError, RelayStats};

fn packet(source: u32, destination: u32, id: u32, start: u8, limit: u8, port: u32) -> DecodedPacket {
    DecodedPacket {
        header: Header {
            destination,
            source,
            packet_id: id,
            flags: HeaderFlags { hop_limit: limit, hop_start: start, want_ack: false, via_mqtt: false },
            channel_hash: 8,
            next_hop: 0,
            relay_node: 0,
        },
        rssi: -40,
        snr: 5,
        data: Data::new(port, vec![1, 2, 3]),
    }
}

fn text(id: u32) -> DecodedPacket {
    packet(0x1111_1111, 0xFFFF_FFFF, id, 3, 3, PORT_TEXT_MESSAGE)
}

#[test]
fn new_state_is_empty() {
    let s = RelayState::new(5);
    assert_eq!(s.pending_count(), 0);
    assert_eq!(s.recent_count(), 0);
    assert_eq!(s.stats(), RelayStats::default());
    assert_eq!(s.our_node_id(), 0xDEAD_BEEF);
    assert_eq!(s.duty_cycle().utilization_limit, 10);
    assert_eq!(s.duty_cycle().period_start_ms, 5);
    assert_eq!(s.in_flight(), None);
}

#[test]
fn duplicate_is_suppressed() {
    let mut s = RelayState::new(0);
    assert_eq!(s.process_packet(text(7), 0, 0), Intake::Queued);
    assert_eq!(s.process_packet(text(7), 10, 0), Intake::Refused(Verdict::Duplicate));
    let stats = s.stats();
    assert_eq!(stats.packets_received, 2);
    assert_eq!(stats.packets_queued, 1);
    assert_eq!(stats.loop_prevention_drops, 1);
    assert_eq!(s.pending_count(), 1);
}

#[test]
fn exhausted_hop_limit_is_refused() {
    let mut s = RelayState::new(0);
    let p = packet(0x1111_1111, 0xFFFF_FFFF, 9, 3, 0, PORT_TEXT_MESSAGE);
    assert!(matches!(s.should_relay(&p), Ok(false)));
    assert_eq!(s.process_packet(p, 0, 0), Intake::Refused(Verdict::HopsExhausted));
    assert_eq!(s.pending_count(), 0);
    let stats = s.stats();
    assert_eq!(stats, RelayStats { packets_received: 2, ..RelayStats::default() });
}

#[test]
fn implicit_ack_removes_own_pending_packet() {
    let mut s = RelayState::new(0);
    let own = packet(OUR_NODE_ID, 0xFFFF_FFFF, 42, 3, 3, PORT_TEXT_MESSAGE);
    assert!(s.queue_packet(own.clone(), true, 64, 0, 0).is_ok());
    assert_eq!(s.pending_count(), 1);
    assert_eq!(s.process_packet(own, 100, 0), Intake::Refused(Verdict::OwnPacket));
    assert_eq!(s.pending_count(), 0);
    assert_eq!(s.stats().implicit_acks, 1);
    assert_eq!(s.stats().packets_queued, 1);
}

#[test]
fn implicit_ack_ignores_other_packets() {
    let mut s = RelayState::new(0);
    s.queue_packet(text(42), false, 64, 0, 0).unwrap();
    s.handle_implicit_ack(&text(42));
    s.handle_implicit_ack(&packet(OUR_NODE_ID, 1, 43, 3, 3, PORT_TEXT_MESSAGE));
    assert_eq!(s.pending_count(), 1);
    assert_eq!(s.stats().implicit_acks, 0);
}

#[test]
fn retry_schedule_runs_to_its_end() {
    let mut s = RelayState::new(0);
    let p = packet(0x2222_2222, 0xFFFF_FFFF, 5, 3, 3, PORT_ROUTING);
    s.queue_packet(p, true, 120, 1000, 0).unwrap();
    let e = s.get_pending(5).unwrap();
    assert_eq!(e.max_retransmissions, 4);
    assert_eq!(e.retry_count, 0);
    assert_eq!(e.next_tx_time, 1000 + 158);
    let mut now = 1158;
    let spacings = [5000u64, 15000, 30000, 60000];
    for (i, gap) in spacings.iter().enumerate() {
        assert_eq!(s.get_next_ready_packet(now).map(|r| r.0), Some(5));
        s.handle_transmitted_packet(5, now);
        let e = s.get_pending(5).unwrap();
        assert_eq!(e.retry_count as usize, i + 1);
        assert_eq!(e.next_tx_time, now + gap);
        assert!(s.get_next_ready_packet(now + gap - 1).is_none());
        now += gap;
    }
    s.handle_transmitted_packet(5, now);
    assert!(s.get_pending(5).is_none());
    s.handle_transmitted_packet(5, now);
    let stats = s.stats();
    assert_eq!(stats.packets_transmitted, 5);
    assert_eq!(stats.retransmissions, 4);
}

#[test]
fn packet_without_ack_is_sent_once() {
    let mut s = RelayState::new(0);
    s.queue_packet(text(6), false, 64, 0, 0).unwrap();
    assert_eq!(s.get_pending(6).unwrap().max_retransmissions, 0);
    s.handle_transmitted_packet(6, 500);
    assert_eq!(s.pending_count(), 0);
    assert_eq!(s.stats().packets_transmitted, 1);
    assert_eq!(s.stats().retransmissions, 0);
}

#[test]
fn busy_channel_backs_off_then_drops() {
    let mut s = RelayState::new(0);
    s.queue_packet(text(8), false, 64, 0, 0).unwrap();
    let expected = [200u64, 400, 800, 1600, 3200, 6400, 12800, 25600];
    for (i, backoff) in expected.iter().enumerate() {
        s.handle_channel_busy(8, 10_000);
        let e = s.get_pending(8).unwrap();
        assert_eq!(e.channel_busy_count as usize, i + 1);
        assert_eq!(e.next_tx_time, 10_000 + backoff);
    }
    assert_eq!(s.stats().packets_dropped, 0);
    s.handle_channel_busy(8, 10_000);
    assert!(s.get_pending(8).is_none());
    assert_eq!(s.stats().packets_dropped, 1);
    assert_eq!(s.stats().channel_busy_events, 9);
    s.handle_channel_busy(8, 10_000);
    assert_eq!(s.stats().channel_busy_events, 9);
}

#[test]
fn admission_rules_apply_in_order() {
    let mut s = RelayState::new(0);
    s.add_recent_packet(77);
    let cases = [
        (packet(0, 0xDEAD_BEEF, 0, 9, 10, 0), Verdict::ZeroPacketId),
        (packet(0, 0xDEAD_BEEF, 77, 8, 9, 0), Verdict::HopStartTooHigh),
        (packet(0, 0xDEAD_BEEF, 77, 3, 4, 0), Verdict::HopLimitAboveStart),
        (packet(0, 0xDEAD_BEEF, 77, 3, 0, 0), Verdict::ReservedSource),
        (packet(0xFFFF_FFFF, 1, 77, 3, 0, 0), Verdict::ReservedSource),
        (packet(OUR_NODE_ID, OUR_NODE_ID, 77, 3, 0, 0), Verdict::OwnPacket),
        (packet(5, OUR_NODE_ID, 77, 3, 0, 0), Verdict::Duplicate),
        (packet(5, OUR_NODE_ID, 78, 3, 0, 0), Verdict::HopsExhausted),
        (packet(5, OUR_NODE_ID, 78, 3, 1, 0), Verdict::AddressedToUs),
        (packet(5, 6, 78, 3, 1, 0), Verdict::PortNotRelayed),
        (packet(5, 6, 78, 3, 1, 70), Verdict::PortNotRelayed),
        (packet(5, 6, 78, 7, 7, PORT_ROUTING), Verdict::Admitted),
        (packet(5, 6, 78, 3, 1, PORT_TEXT_MESSAGE), Verdict::Admitted),
        (packet(5, 6, 78, 3, 1, PORT_NODEINFO), Verdict::Admitted),
        (packet(5, 6, 78, 3, 1, PORT_POSITION), Verdict::Admitted),
        (packet(5, 0xFFFF_FFFF, 78, 3, 1, PORT_TELEMETRY), Verdict::Admitted),
    ];
    for (p, v) in cases.iter() {
        assert_eq!(s.classify(p), *v);
    }
    assert_eq!(s.stats().packets_received, 0);
}

#[test]
fn should_relay_answers_and_counts() {
    let mut s = RelayState::new(0);
    assert!(matches!(s.should_relay(&text(1)), Ok(true)));
    assert!(matches!(
        s.should_relay(&packet(5, 6, 0, 3, 3, 1)),
        Err(RelayError::InvalidPacket("Packet ID cannot be zero"))
    ));
    assert!(matches!(
        s.should_relay(&packet(5, 6, 1, 8, 3, 1)),
        Err(RelayError::InvalidPacket("Hop start too high"))
    ));
    assert!(matches!(
        s.should_relay(&packet(5, 6, 1, 3, 4, 1)),
        Err(RelayError::InvalidPacket("Hop limit cannot exceed hop start"))
    ));
    assert!(matches!(
        s.should_relay(&packet(0, 6, 1, 3, 3, 1)),
        Err(RelayError::InvalidPacket("Invalid source node ID"))
    ));
    assert!(matches!(s.should_relay(&packet(5, OUR_NODE_ID, 1, 3, 3, 1)), Ok(false)));
    assert!(s.validate_packet(&text(1)).is_ok());
    assert_eq!(s.stats().packets_received, 6);
    assert_eq!(s.stats().loop_prevention_drops, 0);
    assert_eq!(s.pending_count(), 0);
}

#[test]
fn admitted_packets_have_valid_headers() {
    let mut s = RelayState::new(0);
    for id in 0..40u32 {
        for start in 0..9u8 {
            for limit in 0..9u8 {
                let p = packet(0x33, 0x44, id, start, limit, PORT_TEXT_MESSAGE);
                if let Ok(true) = s.should_relay(&p) {
                    assert!(id != 0 && limit <= start && start <= 7);
                }
            }
        }
    }
}

#[test]
fn queue_holds_sixteen_packets() {
    let mut s = RelayState::new(0);
    for id in 1..=16u32 {
        assert_eq!(s.process_packet(text(id), 0, 0), Intake::Queued);
    }
    assert_eq!(s.pending_count(), 16);
    assert_eq!(s.process_packet(text(17), 0, 0), Intake::QueueFull);
    assert_eq!(s.pending_count(), 16);
    assert!(matches!(s.queue_packet(text(18), false, 64, 0, 0), Err(RelayError::QueueFull)));
    assert!(s.queue_packet(text(3), false, 64, 99, 0).is_ok());
    assert_eq!(s.get_pending(3).unwrap().queued_at, 99);
    let stats = s.stats();
    assert_eq!(stats.packets_queued, 17);
    assert_eq!(stats.packets_dropped, 2);
    assert_eq!(stats.packets_received, 17);
    assert!(!s.is_recent_packet(17));
}

#[test]
fn recent_ids_hold_thirty_one() {
    let mut s = RelayState::new(0);
    for id in 1..=31u32 {
        s.add_recent_packet(id);
    }
    assert_eq!(s.recent_count(), 31);
    assert!(s.is_recent_packet(1));
    s.add_recent_packet(32);
    assert_eq!(s.recent_count(), 31);
    assert!(!s.is_recent_packet(1));
    assert!(s.is_recent_packet(2));
    assert!(s.is_recent_packet(32));
}

#[test]
fn old_packets_expire() {
    let mut s = RelayState::new(0);
    s.queue_packet(text(1), false, 64, 1000, 0).unwrap();
    s.queue_packet(text(2), false, 64, 2000, 0).unwrap();
    s.cleanup_expired_packets(61_000);
    assert_eq!(s.pending_count(), 2);
    s.cleanup_expired_packets(61_001);
    assert_eq!(s.pending_count(), 1);
    assert!(s.get_pending(1).is_none());
    assert_eq!(s.stats().packets_expired, 1);
    s.cleanup_expired_packets(500);
    assert_eq!(s.pending_count(), 1);
    s.cleanup_expired_packets(1_000_000);
    assert_eq!(s.pending_count(), 0);
    assert_eq!(s.stats().packets_expired, 2);
}

#[test]
fn earliest_due_packet_goes_first() {
    let mut s = RelayState::new(0);
    for id in [30u32, 10, 20] {
        s.queue_packet(text(id), false, 64, 0, 0).unwrap();
    }
    assert!(s.hasten(30, 100));
    assert!(s.hasten(10, 300));
    assert!(s.hasten(20, 100));
    assert!(!s.hasten(99, 100));
    assert!(s.get_next_ready_packet(99).is_none());
    let (id, p) = s.get_next_ready_packet(100).unwrap();
    assert_eq!(id, 20);
    assert_eq!(p.header.packet_id, 20);
    assert_eq!(p.data.payload, vec![1, 2, 3]);
    s.handle_transmitted_packet(20, 100);
    assert_eq!(s.get_next_ready_packet(1000).unwrap().0, 30);
    s.handle_transmitted_packet(30, 100);
    assert_eq!(s.get_next_ready_packet(1000).unwrap().0, 10);
}

#[test]
fn relay_delay_follows_the_formula() {
    let flags = HeaderFlags { hop_limit: 1, hop_start: 3, want_ack: false, via_mqtt: false };
    assert_eq!(relay_delay(true, &flags, 64, 0), 299);
    assert_eq!(relay_delay(true, &flags, 64, 1000), 299 + 1000 % 599);
    assert_eq!(relay_delay(false, &flags, 64, 0), 224);
    assert_eq!(relay_delay(true, &flags, 0, 0), 400);
    assert_eq!(relay_delay(true, &flags, 127, 0), 200);
    assert_eq!(relay_delay(true, &flags, 127, 400), 600);
    assert_eq!(relay_delay(true, &flags, 127, 401), 200);
    assert_eq!(relay_delay(true, &flags, 255, 12345), 0);
    let odd = HeaderFlags { hop_limit: 5, hop_start: 3, want_ack: false, via_mqtt: false };
    assert_eq!(relay_delay(true, &odd, 0, 0), 300);
    assert_eq!(priority_delay_multiplier(0), 254);
    assert_eq!(priority_delay_multiplier(127), 127);
    assert_eq!(priority_delay_multiplier(120), 134);
    let s = RelayState::new(0);
    assert_eq!(s.calculate_relay_delay(&packet(1, 2, 3, 3, 1, 1), 64, 1000), 299 + 1000 % 599);
}

#[test]
fn jitter_stays_within_twice_the_adjusted_delay() {
    let flags = HeaderFlags { hop_limit: 3, hop_start: 3, want_ack: false, via_mqtt: false };
    for entropy in [0u64, 1, 299, 300, 301, 9999, u64::MAX] {
        let d = relay_delay(true, &flags, 0, entropy);
        assert!((300..=900).contains(&d));
    }
}

#[test]
fn port_table_sets_priority_and_budget() {
    let routing = packet(1, 2, 3, 3, 3, PORT_ROUTING);
    let textp = text(3);
    let position = packet(1, 2, 3, 3, 3, PORT_POSITION);
    assert_eq!(get_packet_priority(&routing), 120);
    assert_eq!(get_packet_priority(&textp), 64);
    assert_eq!(get_max_retransmissions(&routing, true), 4);
    assert_eq!(get_max_retransmissions(&textp, true), 2);
    assert_eq!(get_max_retransmissions(&position, true), 3);
    assert_eq!(get_max_retransmissions(&routing, false), 0);
    assert!(packet_wants_ack(&routing));
    assert!(!packet_wants_ack(&textp));
    assert_eq!(
        [retry_interval(1), retry_interval(2), retry_interval(3), retry_interval(4), retry_interval(5), retry_interval(9)],
        [5000, 15000, 30000, 60000, 120000, 120000]
    );
    assert_eq!(busy_backoff(0), 100);
    assert_eq!(busy_backoff(8), 25600);
}

#[test]
fn pending_entries_keep_their_budget() {
    let mut s = RelayState::new(0);
    assert_eq!(s.process_packet(packet(9, 8, 1, 3, 3, PORT_ROUTING), 0, 7), Intake::Queued);
    assert_eq!(s.process_packet(text(2), 0, 7), Intake::Queued);
    let r = s.get_pending(1).unwrap();
    assert_eq!((r.max_retransmissions, r.wants_ack, r.priority), (4, true, 120));
    assert!(r.has_retransmissions_left());
    assert_eq!(r.retransmissions_left(), 4);
    let t = s.get_pending(2).unwrap();
    assert_eq!((t.max_retransmissions, t.wants_ack, t.priority), (0, false, 64));
    assert!(!t.has_retransmissions_left());
    for _ in 0..10 {
        s.handle_transmitted_packet(1, 0);
        if let Some(e) = s.get_pending(1) {
            assert!(e.retry_count <= e.max_retransmissions);
        }
    }
}

#[test]
fn transmission_is_planned_recorded_and_counted() {
    let cfg = LoraConfig::long_fast();
    let mut s = RelayState::new(0);
    assert!(matches!(s.next_transmission(0, &cfg), TxPlan::Idle));
    assert_eq!(s.process_packet(text(4), 0, 0), Intake::Queued);
    assert!(matches!(s.next_transmission(10, &cfg), TxPlan::Idle));
    let airtime = calculate_packet_airtime(&text(4), &cfg);
    assert_eq!(airtime, 437);
    match s.next_transmission(1000, &cfg) {
        TxPlan::Transmit { packet_id, packet, airtime_ms } => {
            assert_eq!(packet_id, 4);
            assert_eq!(packet.header.source, 0x1111_1111);
            assert_eq!(airtime_ms, 437);
        }
        _ => panic!("a packet was due"),
    }
    assert_eq!(s.in_flight().map(|f| (f.packet_id, f.airtime_ms, f.admitted_at_ms)), Some((4, 437, 1000)));
    s.transmission_succeeded(4, 1500);
    assert_eq!(s.in_flight(), None);
    assert_eq!(s.duty_cycle().total_airtime_ms, 437);
    assert_eq!(s.stats().packets_transmitted, 1);
    assert_eq!(s.pending_count(), 0);
}

#[test]
fn failed_transmission_drops_the_packet() {
    let cfg = LoraConfig::long_fast();
    let mut s = RelayState::new(0);
    s.process_packet(text(4), 0, 0);
    assert!(matches!(s.next_transmission(1000, &cfg), TxPlan::Transmit { .. }));
    s.transmission_failed(4);
    assert_eq!(s.pending_count(), 0);
    assert_eq!(s.in_flight(), None);
    assert_eq!(s.stats().packets_dropped, 1);
    assert_eq!(s.duty_cycle().total_airtime_ms, 0);
}

#[test]
fn duty_cycle_limit_defers_without_dropping() {
    let cfg = LoraConfig::long_fast();
    let mut s = RelayState::with_settings(0x55, false, 0, 0);
    assert_eq!(s.our_node_id(), 0x55);
    s.process_packet(text(4), 0, 0);
    assert_eq!(s.get_pending(4).unwrap().next_tx_time, 149);
    match s.next_transmission(1000, &cfg) {
        TxPlan::Deferred { packet_id } => assert_eq!(packet_id, 4),
        _ => panic!("the limit leaves no room"),
    }
    assert!(matches!(s.next_transmission(2000, &cfg), TxPlan::Deferred { .. }));
    assert_eq!(s.pending_count(), 1);
    assert_eq!(s.stats().duty_cycle_blocks, 2);
    assert_eq!(s.stats().packets_dropped, 0);
    assert_eq!(s.in_flight(), None);
}

#[test]
fn expiry_runs_before_transmission_is_planned() {
    let cfg = LoraConfig::long_fast();
    let mut s = RelayState::new(0);
    s.process_packet(text(4), 0, 0);
    assert!(matches!(s.next_transmission(60_001, &cfg), TxPlan::Idle));
    assert_eq!(s.stats().packets_expired, 1);
}

#[test]
fn counters_account_for_every_arrival() {
    let mut s = RelayState::new(0);
    let mut refused = 0u32;
    for i in 0..200u32 {
        let p = packet(1 + (i % 3), 0xFFFF_FFFF, i % 23, 3, (i % 4) as u8, if i % 5 == 0 { 70 } else { 1 });
        match s.process_packet(p, i as u64, i as u64) {
            Intake::Refused(v) if v != Verdict::Duplicate => refused += 1,
            _ => {}
        }
        let st = s.stats();
        assert_eq!(st.packets_received, i + 1);
        assert!(st.packets_received >= st.packets_queued + st.loop_prevention_drops + refused);
        assert!(s.pending_count() <= 16);
        assert!(s.recent_count() <= 32);
    }
}

#[test]
fn task_functions_handle_missing_state() {
    let mut none: Option<RelayState> = None;
    assert!(!is_relay_initialized(&none));
    assert_eq!(get_relay_queue_status(&none, 0), (0, 0, false));
    assert!(matches!(reset_relay_stats(&mut none), Err(RelayError::NotInitialized)));
    assert_eq!(get_relay_stats(&none, 0), RelayStats::default());
    assert!(!trigger_retransmission(&mut none, 1, 0));
    assert!(none.is_none());
}

#[test]
fn task_functions_work_on_the_state() {
    let mut state = Some(RelayState::new(0));
    assert!(is_relay_initialized(&state));
    state.as_mut().unwrap().process_packet(text(4), 0, 0);
    assert_eq!(get_relay_queue_status(&state, 0), (1, 1, false));
    assert_eq!(get_relay_stats(&state, 0).packets_queued, 1);
    assert_eq!(get_relay_stats(&state, 0).current_duty_cycle_percent, 0);
    assert!(trigger_retransmission(&mut state, 4, 0));
    assert!(!trigger_retransmission(&mut state, 5, 0));
    assert_eq!(state.as_ref().unwrap().get_pending(4).unwrap().next_tx_time, 0);
    assert!(reset_relay_stats(&mut state).is_ok());
    assert_eq!(get_relay_stats(&state, 0), RelayStats::default());
    assert_eq!(get_relay_queue_status(&state, 0), (1, 1, false));
}
