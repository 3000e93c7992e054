use std::collections::VecDeque;
use std::time::{SystemTime, UNIX_EPOCH};
use tcpgraph::bandwidth::{BandwidthCalculator, BandwidthData, ByteRate, DirectionalBandwidth};
use tcpgraph::capture::{PacketInfo, TrafficDirection};
use tcpgraph::error::ConfigError;

const SECOND: u128 = 1_000_000_000;

fn calculator(window: u128, max_history: usize) -> BandwidthCalculator {
    BandwidthCalculator::new(window, max_history).unwrap()
}

fn record(timestamp: u128, size: u32, direction: TrafficDirection) -> PacketInfo {
    PacketInfo { timestamp, size, direction }
}

fn clock() -> u128 {
    SystemTime::now().duration_since(UNIX_EPOCH).unwrap().as_nanos()
}

fn bytes_per_second(rate: ByteRate) -> f64 {
    rate.bytes as f64 / (rate.window_nanos as f64 / 1e9)
}

#[test]
fn a_window_of_zero_length_is_rejected() {
    assert_eq!(BandwidthCalculator::new(0, 100).unwrap_err(), ConfigError::ZeroWindow);
    assert_eq!(BandwidthCalculator::new(0, 0).unwrap_err(), ConfigError::ZeroWindow);
    assert!(BandwidthCalculator::new(1, 0).is_ok());
}

#[test]
fn an_empty_calculator_samples_zero() {
    let mut calc: BandwidthCalculator = calculator(SECOND, 100);
    let rates: DirectionalBandwidth = calc.calculate_bandwidth_at(5 * SECOND);
    assert_eq!(rates.inbound, ByteRate { bytes: 0, window_nanos: SECOND });
    assert_eq!(rates.outbound, ByteRate { bytes: 0, window_nanos: SECOND });
    assert_eq!(bytes_per_second(rates.inbound), 0.0);
    assert_eq!(bytes_per_second(rates.outbound), 0.0);
}

#[test]
fn rate_in_whole_bytes_per_second_rounds_down() {
    assert_eq!(ByteRate { bytes: 1000, window_nanos: SECOND }.bytes_per_second(), Some(1000));
    assert_eq!(ByteRate { bytes: 600, window_nanos: 2 * SECOND }.bytes_per_second(), Some(300));
    assert_eq!(ByteRate { bytes: 7, window_nanos: 3 * SECOND }.bytes_per_second(), Some(2));
    assert_eq!(ByteRate { bytes: 1, window_nanos: SECOND + 1 }.bytes_per_second(), Some(0));
    assert_eq!(ByteRate { bytes: 3, window_nanos: SECOND / 2 }.bytes_per_second(), Some(6));
    assert_eq!(ByteRate { bytes: 0, window_nanos: 1 }.bytes_per_second(), Some(0));
    assert_eq!(ByteRate { bytes: 5, window_nanos: 1 }.bytes_per_second(), Some(5_000_000_000));
}

#[test]
fn rate_has_no_value_over_an_empty_window_or_beyond_128_bits() {
    assert_eq!(ByteRate { bytes: 1000, window_nanos: 0 }.bytes_per_second(), None);
    assert_eq!(ByteRate { bytes: 0, window_nanos: 0 }.bytes_per_second(), None);
    assert_eq!(ByteRate { bytes: u128::MAX, window_nanos: SECOND }.bytes_per_second(), None);
    let largest: u128 = u128::MAX / SECOND;
    assert_eq!(ByteRate { bytes: largest, window_nanos: SECOND }.bytes_per_second(), Some(largest));
    assert_eq!(ByteRate { bytes: largest + 1, window_nanos: SECOND }.bytes_per_second(), None);
}

#[test]
fn records_of_one_direction_add_up() {
    let mut calc: BandwidthCalculator = calculator(2 * SECOND, 100);
    let at: u128 = 100 * SECOND;
    calc.add_packet_at(record(at, 100, TrafficDirection::Inbound), at);
    calc.add_packet_at(record(at, 200, TrafficDirection::Inbound), at);
    calc.add_packet_at(record(at, 300, TrafficDirection::Inbound), at);
    let rates: DirectionalBandwidth = calc.calculate_bandwidth_at(at + SECOND);
    assert_eq!(rates.inbound, ByteRate { bytes: 600, window_nanos: 2 * SECOND });
    assert_eq!(rates.outbound, ByteRate { bytes: 0, window_nanos: 2 * SECOND });
    assert_eq!(bytes_per_second(rates.inbound), 300.0);
    assert_eq!(rates.inbound.bytes_per_second(), Some(300));
    assert_eq!(rates.outbound.bytes_per_second(), Some(0));

    let mut calc: BandwidthCalculator = calculator(SECOND / 2, 100);
    calc.add_packet_at(record(at, 1500, TrafficDirection::Outbound), at);
    calc.add_packet_at(record(at, 500, TrafficDirection::Outbound), at);
    let rates: DirectionalBandwidth = calc.calculate_bandwidth_at(at);
    assert_eq!(rates.outbound.bytes, 2000);
    assert_eq!(rates.inbound.bytes, 0);
    assert_eq!(bytes_per_second(rates.outbound), 4000.0);
}

#[test]
fn unknown_records_are_split_evenly() {
    let mut calc: BandwidthCalculator = calculator(SECOND, 100);
    calc.add_packet_at(record(10 * SECOND, 1000, TrafficDirection::Unknown), 10 * SECOND);
    let rates: DirectionalBandwidth = calc.calculate_bandwidth_at(10 * SECOND);
    assert_eq!(rates.inbound.bytes, 500);
    assert_eq!(rates.outbound.bytes, 500);

    let mut calc: BandwidthCalculator = calculator(SECOND, 100);
    calc.add_packet_at(record(10 * SECOND, 7, TrafficDirection::Unknown), 10 * SECOND);
    let rates: DirectionalBandwidth = calc.calculate_bandwidth_at(10 * SECOND);
    assert_eq!(rates.inbound.bytes, 3);
    assert_eq!(rates.outbound.bytes, 3);

    let mut calc: BandwidthCalculator = calculator(SECOND, 100);
    calc.add_packet_at(record(10 * SECOND, 1, TrafficDirection::Unknown), 10 * SECOND);
    calc.add_packet_at(record(10 * SECOND, u32::MAX, TrafficDirection::Unknown), 10 * SECOND);
    let rates: DirectionalBandwidth = calc.calculate_bandwidth_at(10 * SECOND);
    assert_eq!(rates.inbound.bytes, 2_147_483_647);
    assert_eq!(rates.outbound.bytes, 2_147_483_647);
}

#[test]
fn mixed_records_go_to_their_sides() {
    let mut calc: BandwidthCalculator = calculator(SECOND, 100);
    let at: u128 = 50 * SECOND;
    calc.add_packet_at(record(at, 100, TrafficDirection::Inbound), at);
    calc.add_packet_at(record(at, 40, TrafficDirection::Outbound), at);
    calc.add_packet_at(record(at, 9, TrafficDirection::Unknown), at);
    let rates: DirectionalBandwidth = calc.calculate_bandwidth_at(at);
    assert_eq!(rates.inbound.bytes, 104);
    assert_eq!(rates.outbound.bytes, 44);
}

#[test]
fn the_window_ends_at_the_sample_and_includes_its_start() {
    let mut calc: BandwidthCalculator = calculator(SECOND, 100);
    let at: u128 = 50 * SECOND;
    calc.add_packet_at(record(at, 100, TrafficDirection::Inbound), at);
    // exactly one window old: still counted
    assert_eq!(calc.calculate_bandwidth_at(at + SECOND).inbound.bytes, 100);
    // one nanosecond older: not counted
    assert_eq!(calc.calculate_bandwidth_at(at + SECOND + 1).inbound.bytes, 0);
    // a record ahead of the clock counts
    assert_eq!(calc.calculate_bandwidth_at(at - 10 * SECOND).inbound.bytes, 100);
}

#[test]
fn a_sample_before_one_window_has_passed_counts_everything() {
    let mut calc: BandwidthCalculator = calculator(10 * SECOND, 100);
    calc.add_packet_at(record(0, 5, TrafficDirection::Outbound), 0);
    calc.add_packet_at(record(SECOND, 6, TrafficDirection::Outbound), SECOND);
    assert_eq!(calc.calculate_bandwidth_at(3 * SECOND).outbound.bytes, 11);
}

#[test]
fn stale_head_is_pruned_at_ingest() {
    let mut calc: BandwidthCalculator = calculator(SECOND, 100);
    calc.add_packet_at(record(0, 100, TrafficDirection::Inbound), 0);
    // ten seconds later the first record is older than two windows and leaves
    calc.add_packet_at(record(10 * SECOND, 20, TrafficDirection::Inbound), 10 * SECOND);
    assert_eq!(calc.calculate_bandwidth_at(10 * SECOND).inbound.bytes, 20);
    // it stays away even for a sample whose window would hold it
    assert_eq!(calc.calculate_bandwidth_at(SECOND / 2).inbound.bytes, 20);
}

#[test]
fn records_up_to_two_windows_old_stay_buffered() {
    let mut calc: BandwidthCalculator = calculator(SECOND, 100);
    calc.add_packet_at(record(8 * SECOND, 100, TrafficDirection::Inbound), 8 * SECOND);
    // exactly two windows old at the next ingest: kept
    calc.add_packet_at(record(10 * SECOND, 20, TrafficDirection::Inbound), 10 * SECOND);
    assert_eq!(calc.calculate_bandwidth_at(10 * SECOND).inbound.bytes, 20);
    assert_eq!(calc.calculate_bandwidth_at(9 * SECOND).inbound.bytes, 120);
    // one nanosecond more: dropped
    calc.add_packet_at(record(10 * SECOND, 3, TrafficDirection::Inbound), 10 * SECOND + 1);
    assert_eq!(calc.calculate_bandwidth_at(9 * SECOND).inbound.bytes, 23);
}

#[test]
fn pruning_stops_at_the_first_record_that_is_not_stale() {
    let mut calc: BandwidthCalculator = calculator(SECOND, 100);
    calc.add_packet_at(record(100 * SECOND, 1, TrafficDirection::Inbound), 0);
    calc.add_packet_at(record(0, 2, TrafficDirection::Inbound), 0);
    // the second record is stale now, but it stands behind one that is not
    calc.add_packet_at(record(100 * SECOND, 4, TrafficDirection::Inbound), 100 * SECOND);
    assert_eq!(calc.calculate_bandwidth_at(100 * SECOND).inbound.bytes, 5);
    assert_eq!(calc.calculate_bandwidth_at(0).inbound.bytes, 7);
}

#[test]
fn history_grows_to_its_bound_and_keeps_the_newest() {
    let mut calc: BandwidthCalculator = calculator(SECOND, 2);
    assert_eq!(calc.get_history().len(), 0);
    calc.calculate_bandwidth_at(1);
    assert_eq!(calc.get_history().len(), 1);
    calc.calculate_bandwidth_at(2);
    assert_eq!(calc.get_history().len(), 2);
    calc.calculate_bandwidth_at(3);
    calc.calculate_bandwidth_at(4);
    calc.calculate_bandwidth_at(5);
    let history: &VecDeque<BandwidthData> = calc.get_history();
    assert_eq!(history.len(), 2);
    assert_eq!(history[0].timestamp, 4);
    assert_eq!(history[1].timestamp, 5);
}

#[test]
fn history_holds_what_was_sampled() {
    let mut calc: BandwidthCalculator = calculator(SECOND, 3);
    calc.add_packet_at(record(7, 10, TrafficDirection::Inbound), 7);
    calc.calculate_bandwidth_at(8);
    calc.add_packet_at(record(9, 5, TrafficDirection::Outbound), 9);
    calc.calculate_bandwidth_at(10);
    let zero: ByteRate = ByteRate { bytes: 0, window_nanos: SECOND };
    let expected: Vec<BandwidthData> = vec![
        BandwidthData {
            timestamp: 8,
            inbound_bps: ByteRate { bytes: 10, window_nanos: SECOND },
            outbound_bps: zero,
        },
        BandwidthData {
            timestamp: 10,
            inbound_bps: ByteRate { bytes: 10, window_nanos: SECOND },
            outbound_bps: ByteRate { bytes: 5, window_nanos: SECOND },
        },
    ];
    assert_eq!(calc.get_history().iter().copied().collect::<Vec<BandwidthData>>(), expected);
}

#[test]
fn history_of_bound_zero_stays_empty() {
    let mut calc: BandwidthCalculator = calculator(SECOND, 0);
    calc.add_packet_at(record(1, 10, TrafficDirection::Inbound), 1);
    assert_eq!(calc.calculate_bandwidth_at(1).inbound.bytes, 10);
    assert_eq!(calc.calculate_bandwidth_at(2).inbound.bytes, 10);
    assert_eq!(calc.get_history().len(), 0);
}

#[test]
fn history_of_bound_one_holds_the_last_sample() {
    let mut calc: BandwidthCalculator = calculator(SECOND, 1);
    calc.calculate_bandwidth_at(1);
    calc.calculate_bandwidth_at(2);
    assert_eq!(calc.get_history().len(), 1);
    assert_eq!(calc.get_history()[0].timestamp, 2);
}

#[test]
fn chart_data_is_two_aligned_series() {
    let mut calc: BandwidthCalculator = calculator(SECOND, 3);
    let (inbound, outbound) = calc.get_chart_data();
    assert!(inbound.is_empty());
    assert!(outbound.is_empty());

    calc.add_packet_at(record(1, 10, TrafficDirection::Inbound), 1);
    calc.calculate_bandwidth_at(1);
    calc.add_packet_at(record(2, 20, TrafficDirection::Outbound), 2);
    calc.calculate_bandwidth_at(2);
    calc.add_packet_at(record(3, 30, TrafficDirection::Unknown), 3);
    calc.calculate_bandwidth_at(3);
    calc.calculate_bandwidth_at(4);
    let (inbound, outbound) = calc.get_chart_data();
    let rate = |bytes: u128| ByteRate { bytes, window_nanos: SECOND };
    assert_eq!(inbound, vec![(0, rate(10)), (1, rate(25)), (2, rate(25))]);
    assert_eq!(outbound, vec![(0, rate(20)), (1, rate(35)), (2, rate(35))]);
}

#[test]
fn five_records_at_one_instant_give_their_sum() {
    let mut calc: BandwidthCalculator = calculator(SECOND, 300);
    let now: u128 = clock();
    for _ in 0..5 {
        calc.add_packet(record(now, 200, TrafficDirection::Inbound));
    }
    let rates: DirectionalBandwidth = calc.calculate_bandwidth();
    assert!(bytes_per_second(rates.inbound) >= 1000.0);
    assert_eq!(bytes_per_second(rates.outbound), 0.0);
    assert_eq!(rates.inbound, ByteRate { bytes: 1000, window_nanos: SECOND });
}

#[test]
fn clocked_ingest_prunes_by_the_present_time() {
    let mut calc: BandwidthCalculator = calculator(SECOND, 10);
    let now: u128 = clock();
    calc.add_packet(record(now - 3600 * SECOND, 100, TrafficDirection::Inbound));
    calc.add_packet(record(now, 50, TrafficDirection::Inbound));
    // the hour-old record left at the second ingest: no window brings it back
    assert_eq!(calc.calculate_bandwidth_at(now - 3600 * SECOND).inbound.bytes, 50);
    assert_eq!(calc.calculate_bandwidth().inbound.bytes, 50);
}

#[test]
fn clocked_sample_is_stamped_with_the_present_time() {
    let mut calc: BandwidthCalculator = calculator(SECOND, 10);
    let before: u128 = clock();
    calc.calculate_bandwidth();
    let after: u128 = clock();
    let stamp: u128 = calc.get_history()[0].timestamp;
    assert!(before <= stamp && stamp <= after);
}

#[test]
fn a_tick_ingests_all_records_and_samples_once() {
    let mut calc: BandwidthCalculator = calculator(SECOND, 10);
    let now: u128 = clock();
    let arrived: Vec<PacketInfo> = vec![
        record(now, 100, TrafficDirection::Inbound),
        record(now, 30, TrafficDirection::Outbound),
        record(now, 11, TrafficDirection::Unknown),
    ];
    let rates: DirectionalBandwidth = calc.process_tick(&arrived);
    assert_eq!(rates.inbound, ByteRate { bytes: 105, window_nanos: SECOND });
    assert_eq!(rates.outbound, ByteRate { bytes: 35, window_nanos: SECOND });
    assert_eq!(calc.get_history().len(), 1);

    let nothing: Vec<PacketInfo> = Vec::new();
    let rates: DirectionalBandwidth = calc.process_tick(&nothing);
    assert_eq!(rates.inbound.bytes, 105);
    assert_eq!(calc.get_history().len(), 2);
}
