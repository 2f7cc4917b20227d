use udp_stress::rate::{
    delay_from_dps, dps_from_delay, resolve_rate, schedule, timing_from_delay, timing_from_dps,
    RateSpec, TimingError,
};

#[test]
fn sub_millisecond_delay_is_compensated() {
    // a delay of 500 ns becomes 2000 datagrams per 1 ms tick: the same rate
    let s = schedule(RateSpec::DelayNs(500));
    assert_eq!(s.batch_size, 2000);
    assert_eq!(s.tick_period_ns, 1_000_000);
}

#[test]
fn coarse_delay_passes_through() {
    let s = schedule(RateSpec::DelayNs(2_000_000));
    assert_eq!(s.batch_size, 1);
    assert_eq!(s.tick_period_ns, 2_000_000);
}

#[test]
fn compensation_preserves_aggregate_rate() {
    // 333 ns per datagram: 3004 of them per tick of 333 * 3004 ns
    let s = schedule(RateSpec::DelayNs(333));
    assert_eq!(s.batch_size, 3004);
    assert_eq!(s.tick_period_ns, 333 * 3004);
    assert!(s.tick_period_ns >= 1_000_000);
}

#[test]
fn frequency_schedules_through_its_delay() {
    // 4,000,000 per second: a 250 ns delay, so 4000 per 1 ms tick
    let s = schedule(RateSpec::PerSecond(4_000_000));
    assert_eq!(s.batch_size, 4000);
    assert_eq!(s.tick_period_ns, 1_000_000);
}

#[test]
fn timing_is_resolved_from_exactly_one_source() {
    assert!(matches!(
        resolve_rate(Some(500), None),
        Ok(RateSpec::DelayNs(500))
    ));
    assert!(matches!(
        resolve_rate(None, Some(2_000_000)),
        Ok(RateSpec::PerSecond(2_000_000))
    ));
    assert!(matches!(resolve_rate(None, None), Err(TimingError::Missing)));
    assert!(matches!(
        resolve_rate(Some(500), Some(2_000_000)),
        Err(TimingError::Conflicting)
    ));
}

#[test]
fn delay_and_frequency_convert_by_integer_division() {
    assert_eq!(dps_from_delay(500), 2_000_000);
    assert_eq!(delay_from_dps(2_000_000), 500);
    assert_eq!(dps_from_delay(3), 333_333_333);
    assert_eq!(timing_from_delay(500), (500, 2_000_000));
    assert_eq!(timing_from_dps(2_000_000), (500, 2_000_000));
}

#[test]
fn conversion_does_not_round_trip_in_general() {
    // a delay close to a second floors to 1 datagram per second, and back
    // to a full second: the rounding drift is documented behaviour
    let dps = dps_from_delay(999_999_999);
    assert_eq!(dps, 1);
    assert_eq!(delay_from_dps(dps), 1_000_000_000);
}
