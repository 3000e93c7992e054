use std::time::{Duration, SystemTime, UNIX_EPOCH};
use tcpgraph::bandwidth::{BandwidthCalculator, ByteRate};
use tcpgraph::capture::{PacketInfo, TrafficDirection};

fn nanos(time: SystemTime) -> u128 {
    time.duration_since(UNIX_EPOCH).unwrap().as_nanos()
}

fn bytes_per_second(rate: ByteRate) -> f64 {
    rate.bytes as f64 / Duration::from_nanos(rate.window_nanos as u64).as_secs_f64()
}

#[test]
fn test_bandwidth_calculator_empty() {
    let mut calc = BandwidthCalculator::new(Duration::from_secs(1).as_nanos(), 100).unwrap();
    let bandwidth = calc.calculate_bandwidth();
    assert_eq!(bytes_per_second(bandwidth.inbound), 0.0);
    assert_eq!(bytes_per_second(bandwidth.outbound), 0.0);
}

#[test]
fn test_bandwidth_calculator_single_packet() {
    let mut calc = BandwidthCalculator::new(Duration::from_secs(1).as_nanos(), 100).unwrap();

    let packet = PacketInfo {
        timestamp: nanos(SystemTime::now()),
        size: 1000,
        direction: TrafficDirection::Inbound,
    };

    calc.add_packet(packet);
    let bandwidth = calc.calculate_bandwidth();

    assert!(bytes_per_second(bandwidth.inbound) > 0.0);
    assert!(bytes_per_second(bandwidth.inbound) <= 1000.0);
    assert_eq!(bytes_per_second(bandwidth.outbound), 0.0);
}

#[test]
fn test_bandwidth_calculator_multiple_packets() {
    let mut calc = BandwidthCalculator::new(Duration::from_secs(1).as_nanos(), 100).unwrap();
    let now = SystemTime::now();

    for i in 0..5 {
        let packet = PacketInfo {
            timestamp: nanos(now),
            size: 200,
            direction: if i % 2 == 0 { TrafficDirection::Inbound } else { TrafficDirection::Outbound },
        };
        calc.add_packet(packet);
    }

    let bandwidth = calc.calculate_bandwidth();
    // 5 packets * 200 bytes = 1000 bytes/sec
    assert!(bytes_per_second(bandwidth.inbound) + bytes_per_second(bandwidth.outbound) >= 1000.0);
}

#[test]
fn test_bandwidth_calculator_history_limit() {
    let mut calc = BandwidthCalculator::new(Duration::from_secs(1).as_nanos(), 2).unwrap();

    for _ in 0..5 {
        calc.calculate_bandwidth();
    }

    assert!(calc.get_history().len() <= 2);
}
