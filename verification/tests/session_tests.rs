use tcpgraph::capture::{
    CaptureAction, CaptureEvent, DeviceChoice, PacketCapture, PacketInfo, TrafficDirection,
    PROMISCUOUS, READ_TIMEOUT_MS, SNAPLEN,
};
use tcpgraph::cli::{needs_device_list, validate_args, validate_interface, Args};
use tcpgraph::error::ConfigError;
use tcpgraph::oracle::{ClassifierMode, InterfaceInfo, LocalAddressSet};
use tcpgraph::text::{find_name, is_any, same_text};

const LOCAL: [u8; 6] = [0x00, 0x1a, 0x2b, 0x3c, 0x4d, 0x5e];
const REMOTE: [u8; 6] = [0x00, 0x50, 0x56, 0xc0, 0x00, 0x08];

fn session(interface: &str, payload_only: bool) -> PacketCapture {
    PacketCapture::new(String::from(interface), String::from("tcp and host 10.0.0.1"), payload_only)
}

fn local_macs() -> LocalAddressSet {
    let host: Vec<InterfaceInfo> = vec![InterfaceInfo {
        name: String::from("eth0"),
        mac: Some(LOCAL),
        ips: Vec::new(),
    }];
    LocalAddressSet::from_interfaces(ClassifierMode::MacBased, "eth0", &host)
}

fn tcp_frame(dst: [u8; 6], src: [u8; 6]) -> Vec<u8> {
    let mut frame: Vec<u8> = Vec::new();
    frame.extend_from_slice(&dst);
    frame.extend_from_slice(&src);
    frame.extend_from_slice(&[0x08, 0x00]);
    let mut packet: Vec<u8> = vec![0; 40 + 60];
    packet[0] = 0x45;
    packet[2..4].copy_from_slice(&100u16.to_be_bytes());
    packet[9] = 6;
    packet[32] = 5 << 4;
    frame.extend_from_slice(&packet);
    frame
}

fn names(list: &[&str]) -> Vec<String> {
    list.iter().map(|name| String::from(*name)).collect()
}

fn args() -> Args {
    Args {
        interface: String::from("eth0"),
        filter: String::from("tcp"),
        interval: 1,
        duration: None,
        payload_only: false,
        smoothing: 3,
    }
}

#[test]
fn session_keeps_its_settings() {
    let capture: PacketCapture = session("eth0", true);
    assert_eq!(capture.interface(), "eth0");
    assert_eq!(capture.filter(), "tcp and host 10.0.0.1");
    assert!(capture.payload_only());
    assert!(!session("any", false).payload_only());
}

#[test]
fn capture_settings_are_fixed() {
    assert!(PROMISCUOUS);
    assert_eq!(SNAPLEN, 65535);
    assert_eq!(READ_TIMEOUT_MS, 1000);
}

#[test]
fn record_is_sized_by_the_captured_length_or_by_the_payload() {
    let frame: Vec<u8> = tcp_frame(REMOTE, LOCAL);
    let local: LocalAddressSet = local_macs();
    assert_eq!(
        session("eth0", false).record_at(&frame, 114, &local, 77),
        PacketInfo { timestamp: 77, size: 114, direction: TrafficDirection::Outbound }
    );
    assert_eq!(
        session("eth0", true).record_at(&frame, 114, &local, 78),
        PacketInfo { timestamp: 78, size: 60, direction: TrafficDirection::Outbound }
    );
    let reply: Vec<u8> = tcp_frame(LOCAL, REMOTE);
    assert_eq!(
        session("eth0", true).record_at(&reply, 114, &local, 79),
        PacketInfo { timestamp: 79, size: 60, direction: TrafficDirection::Inbound }
    );
}

#[test]
fn record_of_a_malformed_frame_is_unknown_with_the_captured_length() {
    let local: LocalAddressSet = local_macs();
    let junk: [u8; 9] = [0x00, 0x1a, 0x2b, 0x3c, 0x4d, 0x5e, 1, 2, 3];
    assert_eq!(
        session("eth0", true).record_at(&junk, 9, &local, 5),
        PacketInfo { timestamp: 5, size: 9, direction: TrafficDirection::Unknown }
    );
    assert_eq!(
        session("eth0", false).record_at(&junk, 9, &local, 5),
        PacketInfo { timestamp: 5, size: 9, direction: TrafficDirection::Unknown }
    );
}

#[test]
fn step_sends_the_record_of_a_frame() {
    let frame: Vec<u8> = tcp_frame(REMOTE, LOCAL);
    let local: LocalAddressSet = local_macs();
    let capture: PacketCapture = session("eth0", true);
    match capture.step(CaptureEvent::Packet { data: &frame, caplen: 114 }, &local) {
        CaptureAction::Send(record) => {
            assert_eq!(record.size, 60);
            assert_eq!(record.direction, TrafficDirection::Outbound);
            assert_eq!(record, capture.record_at(&frame, 114, &local, record.timestamp));
            assert!(record.timestamp > 1_600_000_000_000_000_000);
        }
        other => panic!("a frame is sent on, not {:?}", other),
    }
}

#[test]
fn step_retries_after_a_timeout_and_aborts_after_a_failure() {
    let local: LocalAddressSet = local_macs();
    let capture: PacketCapture = session("eth0", false);
    assert_eq!(capture.step(CaptureEvent::Timeout, &local), CaptureAction::Retry);
    assert_eq!(capture.step(CaptureEvent::Failure, &local), CaptureAction::Abort);
}

#[test]
fn loop_ends_when_the_consumer_is_gone() {
    assert!(PacketCapture::continues_after_send(true));
    assert!(!PacketCapture::continues_after_send(false));
}

#[test]
fn device_of_any_is_the_default_then_the_first_then_the_pseudo_device() {
    let capture: PacketCapture = session("any", false);
    assert_eq!(capture.select_device(true, &names(&["eth0", "lo"])), Ok(DeviceChoice::Default));
    assert_eq!(capture.select_device(true, &names(&[])), Ok(DeviceChoice::Default));
    assert_eq!(capture.select_device(false, &names(&["eth0", "lo"])), Ok(DeviceChoice::Listed(0)));
    assert_eq!(capture.select_device(false, &names(&[])), Ok(DeviceChoice::Pseudo));
}

#[test]
fn device_of_a_name_is_the_first_listed_of_that_name() {
    let capture: PacketCapture = session("lo", false);
    assert_eq!(
        capture.select_device(true, &names(&["eth0", "lo", "lo"])),
        Ok(DeviceChoice::Listed(1))
    );
    assert_eq!(capture.select_device(false, &names(&["lo"])), Ok(DeviceChoice::Listed(0)));
    assert_eq!(
        capture.select_device(true, &names(&["eth0", "wlan0"])),
        Err(ConfigError::InterfaceNotFound)
    );
    assert_eq!(capture.select_device(true, &names(&[])), Err(ConfigError::InterfaceNotFound));
    assert_eq!(
        capture.select_device(true, &names(&["any", "LO", "lo "])),
        Err(ConfigError::InterfaceNotFound)
    );
}

#[test]
fn texts_are_compared_whole() {
    assert!(same_text("eth0", "eth0"));
    assert!(same_text("", ""));
    assert!(!same_text("eth0", "eth1"));
    assert!(!same_text("eth0", "eth"));
    assert!(is_any("any"));
    assert!(!is_any("Any"));
    assert!(!is_any("any "));
    assert!(!is_any(""));
    assert_eq!(find_name("b", &names(&["a", "b", "c", "b"])), Some(1));
    assert_eq!(find_name("d", &names(&["a", "b", "c"])), None);
    assert_eq!(find_name("a", &names(&[])), None);
}

#[test]
fn valid_settings_pass() {
    let devices: Vec<String> = names(&["lo", "eth0"]);
    assert_eq!(validate_args(&args(), &devices), Ok(()));
    let mut with_duration: Args = args();
    with_duration.duration = Some(60);
    with_duration.smoothing = 0;
    assert_eq!(validate_args(&with_duration, &devices), Ok(()));
}

#[test]
fn settings_on_any_need_no_device() {
    let mut settings: Args = args();
    settings.interface = String::from("any");
    assert_eq!(validate_args(&settings, &names(&[])), Ok(()));
    assert_eq!(validate_args(&settings, &names(&["eth0"])), Ok(()));
}

#[test]
fn settings_on_an_unlisted_interface_are_rejected() {
    let mut settings: Args = args();
    settings.interface = String::from("eth9");
    assert_eq!(
        validate_args(&settings, &names(&["lo", "eth0"])),
        Err(ConfigError::InterfaceNotFound)
    );
    assert_eq!(validate_args(&settings, &names(&[])), Err(ConfigError::InterfaceNotFound));
    assert_eq!(validate_args(&args(), &names(&[])), Err(ConfigError::InterfaceNotFound));
    assert_eq!(validate_args(&settings, &names(&["eth9"])), Ok(()));
}

#[test]
fn each_faulty_setting_is_rejected() {
    let devices: Vec<String> = names(&["eth0"]);
    let mut settings: Args = args();
    settings.interface = String::new();
    assert_eq!(validate_args(&settings, &devices), Err(ConfigError::EmptyInterface));

    let mut settings: Args = args();
    settings.filter = String::new();
    assert_eq!(validate_args(&settings, &devices), Err(ConfigError::EmptyFilter));

    let mut settings: Args = args();
    settings.interval = 0;
    assert_eq!(validate_args(&settings, &devices), Err(ConfigError::ZeroInterval));

    let mut settings: Args = args();
    settings.duration = Some(0);
    assert_eq!(validate_args(&settings, &devices), Err(ConfigError::ZeroDuration));
}

#[test]
fn the_first_fault_is_reported() {
    let devices: Vec<String> = names(&[]);
    let settings: Args = Args {
        interface: String::new(),
        filter: String::new(),
        interval: 0,
        duration: Some(0),
        payload_only: true,
        smoothing: 3,
    };
    assert_eq!(validate_args(&settings, &devices), Err(ConfigError::EmptyInterface));
    let settings: Args = Args { interface: String::from("eth0"), ..settings };
    assert_eq!(validate_args(&settings, &devices), Err(ConfigError::EmptyFilter));
    let settings: Args = Args { filter: String::from("udp"), ..settings };
    assert_eq!(validate_args(&settings, &devices), Err(ConfigError::ZeroInterval));
    let settings: Args = Args { interval: 5, ..settings };
    assert_eq!(validate_args(&settings, &devices), Err(ConfigError::ZeroDuration));
    let settings: Args = Args { duration: None, ..settings };
    assert_eq!(validate_args(&settings, &devices), Err(ConfigError::InterfaceNotFound));
}

#[test]
fn devices_are_needed_for_sound_settings_on_a_named_interface() {
    assert!(needs_device_list(&args()));

    let mut settings: Args = args();
    settings.interface = String::from("any");
    assert!(!needs_device_list(&settings));

    let mut settings: Args = args();
    settings.interval = 0;
    assert!(!needs_device_list(&settings));

    let mut settings: Args = args();
    settings.filter = String::new();
    assert!(!needs_device_list(&settings));

    let mut settings: Args = args();
    settings.interface = String::new();
    assert!(!needs_device_list(&settings));

    let mut settings: Args = args();
    settings.duration = Some(0);
    assert!(!needs_device_list(&settings));
}

#[test]
fn interface_must_be_any_or_listed() {
    let devices: Vec<String> = names(&["eth0", "lo"]);
    assert_eq!(validate_interface("any", &devices), Ok(()));
    assert_eq!(validate_interface("any", &names(&[])), Ok(()));
    assert_eq!(validate_interface("lo", &devices), Ok(()));
    assert_eq!(validate_interface("eth1", &devices), Err(ConfigError::InterfaceNotFound));
    assert_eq!(validate_interface("eth0", &names(&[])), Err(ConfigError::InterfaceNotFound));
}
