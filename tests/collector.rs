use microscan::collector::{magnitude, BeaconScanCallback, RssiEntry};

fn rssi_for(magnitude: u8) -> i8 {
    -((42 + magnitude as i16) as i8)
}

fn stamps(cb: &BeaconScanCallback) -> Vec<u32> {
    cb.samples().iter().map(|e| e.timestamp).collect()
}

#[test]
fn default_entry_is_empty_sample() {
    let e = RssiEntry::default();
    assert_eq!(e.timestamp, 0);
    assert_eq!(e.rssi, 255);
}

#[test]
fn new_collector_publishes_zero() {
    let cb = BeaconScanCallback::default();
    assert_eq!(cb.published(), 0);
    assert!(cb.samples().is_empty());
}

#[test]
fn magnitude_subtracts_bias() {
    assert_eq!(magnitude(-60), 18);
    assert_eq!(magnitude(60), 18);
    assert_eq!(magnitude(-43), 1);
}

#[test]
fn magnitude_saturates_below_bias() {
    assert_eq!(magnitude(-42), 0);
    assert_eq!(magnitude(-10), 0);
    assert_eq!(magnitude(0), 0);
    assert_eq!(magnitude(41), 0);
}

#[test]
fn magnitude_of_extremes() {
    assert_eq!(magnitude(-128), 86);
    assert_eq!(magnitude(127), 85);
}

#[test]
fn no_rssi_changes_nothing() {
    let mut cb = BeaconScanCallback::new();
    for t in 0..100u32 {
        assert_eq!(cb.beacon(t * 100_000, None), None);
    }
    assert_eq!(cb.published(), 0);
    assert!(cb.samples().is_empty());
}

#[test]
fn single_sample_closes_no_burst() {
    let mut cb = BeaconScanCallback::new();
    assert_eq!(cb.beacon(1_000, Some(rssi_for(7))), None);
    assert_eq!(stamps(&cb), vec![1_000]);
    assert_eq!(cb.samples()[0].rssi, 7);
    assert_eq!(cb.published(), 0);
}

#[test]
fn three_advertisements_scenario() {
    let mut cb = BeaconScanCallback::new();
    assert_eq!(cb.beacon(0, Some(rssi_for(5))), None);
    assert_eq!(cb.beacon(100_000, Some(rssi_for(8))), None);
    assert_eq!(stamps(&cb), vec![0, 100_000]);
    assert_eq!(cb.beacon(600_000, Some(rssi_for(3))), Some(3));
    assert_eq!(cb.published(), 3);
    // One recent sample was counted, so one sample leaves from the oldest end.
    assert_eq!(stamps(&cb), vec![100_000, 600_000]);
}

#[test]
fn full_log_closes_burst_with_recent_minimum() {
    let mut cb = BeaconScanCallback::new();
    for i in 0..31u32 {
        let m = if i == 17 { 4 } else { 10 + i as u8 };
        assert_eq!(cb.beacon(i * 5_000, Some(rssi_for(m))), None);
    }
    assert_eq!(cb.samples().len(), 31);
    assert_eq!(cb.beacon(31 * 5_000, Some(rssi_for(60))), Some(4));
    assert_eq!(cb.published(), 4);
    assert!(cb.samples().is_empty());
}

#[test]
fn stale_samples_are_left_out_of_the_minimum() {
    let mut cb = BeaconScanCallback::new();
    assert_eq!(cb.beacon(0, Some(rssi_for(1))), None);
    assert_eq!(cb.beacon(200_000, Some(rssi_for(9))), None);
    // The oldest is now 300_000 ticks old; the sample at 200_000 is recent.
    assert_eq!(cb.beacon(300_000, Some(rssi_for(12))), Some(9));
    assert_eq!(stamps(&cb), vec![300_000]);
}

#[test]
fn window_average_evicts_after_averaging() {
    let mut cb = BeaconScanCallback::new();
    assert_eq!(cb.beacon(0, Some(rssi_for(0))), None);
    let mut published = Vec::new();
    for (k, m) in [10u8, 20, 30, 40, 50].iter().enumerate() {
        let t = 300_000 * (k as u32 + 1);
        published.push(cb.beacon(t, Some(rssi_for(*m))));
    }
    assert_eq!(published, vec![Some(10), Some(15), Some(20), Some(25), Some(35)]);
    assert_eq!(cb.published(), 35);
}

#[test]
fn window_average_truncates() {
    let mut cb = BeaconScanCallback::new();
    assert_eq!(cb.beacon(0, Some(rssi_for(0))), None);
    assert_eq!(cb.beacon(300_000, Some(rssi_for(1))), Some(1));
    assert_eq!(cb.beacon(600_000, Some(rssi_for(2))), Some(1));
}

#[test]
fn elapsed_time_survives_counter_wraparound() {
    let mut cb = BeaconScanCallback::new();
    let t0 = u32::MAX - 100_000;
    assert_eq!(cb.beacon(t0, Some(rssi_for(2))), None);
    assert_eq!(cb.beacon(100_000, Some(rssi_for(6))), None);
    // 100_001 ticks after t0, across the wrap: no burst yet.
    assert_eq!(stamps(&cb), vec![t0, 100_000]);
    // 300_001 ticks after t0: a burst closes, and t0 is stale.
    assert_eq!(cb.beacon(200_000, Some(rssi_for(7))), Some(6));
    assert_eq!(cb.published(), 6);
    assert_eq!(stamps(&cb), vec![200_000]);
}

#[test]
fn log_holds_at_most_thirty_two() {
    let mut cb = BeaconScanCallback::new();
    for i in 0..31u32 {
        cb.beacon(i, Some(rssi_for(5)));
    }
    assert_eq!(cb.samples().len(), 31);
    assert_eq!(cb.beacon(31, Some(rssi_for(5))), Some(5));
    assert!(cb.samples().len() <= 32);
}
