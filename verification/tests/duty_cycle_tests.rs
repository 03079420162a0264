use meshtassy::airtime::LoraConfig;
use meshtassy::duty_cycle::DutyCycleTracker;

#[test]
fn new_tracker_has_an_empty_hour() {
    let t = DutyCycleTracker::new(10, 77);
    assert_eq!((t.total_airtime_ms, t.period_start_ms, t.utilization_limit, t.period_length_secs), (0, 77, 10, 3600));
    assert_eq!(t.get_utilization_percent(77), 0);
}

#[test]
fn limit_is_ten_percent_of_the_hour() {
    let t = DutyCycleTracker::new(10, 0);
    assert!(t.can_transmit(360_000, 0));
    assert!(!t.can_transmit(360_001, 0));
    assert!(t.can_transmit(0, 0));
}

#[test]
fn candidate_is_deferred_when_the_window_is_nearly_used() {
    let mut t = DutyCycleTracker::new(10, 0);
    t.record_transmission(359_800, 1000);
    assert!(!t.can_transmit(250, 2000));
    assert!(t.can_transmit(200, 2000));
    assert_eq!(t.get_utilization_percent(2000), 9);
    assert!(t.can_transmit(250, 3_600_000));
    t.record_transmission(250, 3_600_001);
    assert_eq!(t.total_airtime_ms, 250);
    assert_eq!(t.period_start_ms, 3_600_001);
}

#[test]
fn precharge_of_358_seconds_leaves_room_for_a_quarter_second() {
    let mut t = DutyCycleTracker::new(10, 0);
    t.record_transmission(358_000, 0);
    assert_eq!(t.get_utilization_percent(10), 9);
    assert!(t.can_transmit(250, 10));
    assert!(t.can_transmit(2_000, 10));
    assert!(!t.can_transmit(2_001, 10));
}

#[test]
fn recorded_airtime_adds_up_and_saturates() {
    let mut t = DutyCycleTracker::new(10, 0);
    t.record_transmission(100, 10);
    t.record_transmission(200, 20);
    assert_eq!(t.total_airtime_ms, 300);
    assert_eq!(t.period_start_ms, 0);
    t.record_transmission(u32::MAX, 30);
    assert_eq!(t.total_airtime_ms, u32::MAX);
    assert_eq!(t.get_utilization_percent(30), 100);
}

#[test]
fn window_runs_out_after_an_hour() {
    let mut t = DutyCycleTracker::new(10, 1000);
    t.record_transmission(360_000, 1000);
    assert!(!t.can_transmit(1, 3_600_999));
    assert_eq!(t.get_utilization_percent(3_600_999), 10);
    assert!(t.can_transmit(1, 3_601_000));
    assert_eq!(t.get_utilization_percent(3_601_000), 0);
    assert!(!t.can_transmit(360_001, 3_601_000));
    assert!(!t.can_transmit(1, 0));
}

#[test]
fn admitted_transmissions_never_exceed_the_limit() {
    let mut t = DutyCycleTracker::new(10, 0);
    let mut now = 0u64;
    for i in 0..5000u64 {
        let airtime = 100 + (i * 37 % 900) as u32;
        if t.can_transmit(airtime, now) {
            now += airtime as u64;
            t.record_transmission(airtime, now);
        } else {
            now += 50_000;
        }
        assert!(t.total_airtime_ms <= 360_000);
    }
}

#[test]
fn airtime_of_long_fast_frames() {
    let c = LoraConfig::long_fast();
    assert!(c.is_valid());
    assert_eq!(c.time_on_air_ms(24), 437);
    assert_eq!(c.time_on_air_ms(0), 232);
    assert_eq!(c.time_on_air_ms(256), 2157);
}

#[test]
fn airtime_grows_with_the_frame() {
    for sf in 5..=12u8 {
        let c = LoraConfig { spreading_factor: sf, low_data_rate_optimize: sf >= 11, ..LoraConfig::long_fast() };
        let mut last = 0;
        for len in 0..=256u32 {
            let t = c.time_on_air_ms(len);
            assert!(t >= last);
            last = t;
        }
    }
}

#[test]
fn airtime_saturates_and_validates() {
    let slow = LoraConfig { spreading_factor: 12, bandwidth_hz: 1, preamble_symbols: 65535, ..LoraConfig::long_fast() };
    assert_eq!(slow.time_on_air_ms(u32::MAX), u32::MAX);
    assert!(!LoraConfig { spreading_factor: 4, ..LoraConfig::long_fast() }.is_valid());
    assert!(!LoraConfig { spreading_factor: 13, ..LoraConfig::long_fast() }.is_valid());
    assert!(!LoraConfig { bandwidth_hz: 0, ..LoraConfig::long_fast() }.is_valid());
    assert!(!LoraConfig { coding_rate_denominator: 4, ..LoraConfig::long_fast() }.is_valid());
    assert!(!LoraConfig { coding_rate_denominator: 9, ..LoraConfig::long_fast() }.is_valid());
}
