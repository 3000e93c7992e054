//! Classified packet records and the capture session that produces them.
//!
//! The session itself reads no device. The loop that does hands each thing
//! it reads to [`PacketCapture::step`] as a [`CaptureEvent`] and performs
//! the [`CaptureAction`] that comes back.

use vstd::prelude::*;
use crate::address::IpAddress;
use crate::classifier::{classify, direction_of};
use crate::clock::{elapsed_since_epoch, nanos_of};
use crate::error::ConfigError;
use crate::frame::{parse_frame, parsed, payload_length};
use crate::oracle::{
    local_addresses, ClassifierMode, InterfaceInfo, LocalAddressSet, LocalAddresses,
};
use crate::text::{any_selector, find_name, is_any};

verus! {

/// Whether the capture device is opened in promiscuous mode.
pub const PROMISCUOUS: bool = true;

/// The most bytes that are captured of one frame.
pub const SNAPLEN: i32 = 65535;

/// Milliseconds after which a read of the capture device gives up, so that
/// the loop can look for the end of the session.
pub const READ_TIMEOUT_MS: i32 = 1000;

/// The direction of a frame relative to the monitored host.
#[derive(Debug, Clone, Copy, PartialEq, Eq, Structural)]
pub enum TrafficDirection {
    Inbound,
    Outbound,
    Unknown,
}

/// One classified frame.
#[derive(Debug, Clone, Copy, PartialEq, Eq, Structural)]
pub struct PacketInfo {
    /// Nanoseconds since the Unix epoch.
    pub timestamp: u128,
    /// Bytes attributed to the frame.
    pub size: u32,
    pub direction: TrafficDirection,
}

/// What a read of the capture device gave.
pub enum CaptureEvent<'a> {
    /// A frame, with the captured length that the device reports for it.
    Packet { data: &'a [u8], caplen: u32 },
    /// The read timed out with no frame.
    Timeout,
    /// The device failed.
    Failure,
}

/// What the capture loop does next.
#[derive(Debug, Clone, Copy, PartialEq, Eq, Structural)]
pub enum CaptureAction {
    /// Send the record to the consumer; stop if it is gone.
    Send(PacketInfo),
    /// Read again.
    Retry,
    /// End the session with the error of the device.
    Abort,
}

/// Which capture device a session opens.
#[derive(Debug, Clone, Copy, PartialEq, Eq, Structural)]
pub enum DeviceChoice {
    /// The default device of the host.
    Default,
    /// The listed device at this place.
    Listed(usize),
    /// The pseudo-device that captures on all interfaces.
    Pseudo,
}

/// The settings of a capture session.
pub struct CaptureConfig {
    pub interface: Seq<char>,
    pub filter: Seq<char>,
    pub payload_only: bool,
}

/// A capture session on one interface.
pub struct PacketCapture {
    interface: String,
    filter: String,
    payload_only: bool,
}

/// The length of a frame as a 32-bit number, the largest one if it is longer.
pub open spec fn captured_length(frame: Seq<u8>) -> u32 {
    if frame.len() > u32::MAX {
        u32::MAX
    } else {
        frame.len() as u32
    }
}

/// The record of a frame: stamped with `timestamp`, sized by its payload
/// length where only payload counts and by `caplen` otherwise, and
/// classified against the local addresses.
pub open spec fn record_of(
    frame: Seq<u8>,
    caplen: u32,
    payload_only: bool,
    local: LocalAddresses,
    timestamp: u128,
) -> PacketInfo {
    PacketInfo {
        timestamp,
        size: if payload_only {
            parsed(frame, caplen).payload_length
        } else {
            caplen
        },
        direction: direction_of(parsed(frame, caplen), local),
    }
}

/// Whether `choice` is the device of a session on `interface`. For `any` it
/// is the default device, else the first listed one, else the
/// pseudo-device. For another name it is the first listed device of that
/// name, and a session on a name that is not listed is refused.
pub open spec fn is_device_for(
    choice: Result<DeviceChoice, ConfigError>,
    interface: Seq<char>,
    has_default: bool,
    listed: Seq<String>,
) -> bool {
    match choice {
        Ok(DeviceChoice::Default) => interface == any_selector() && has_default,
        Ok(DeviceChoice::Listed(place)) => {
            &&& place < listed.len()
            &&& if interface == any_selector() {
                !has_default && place == 0
            } else {
                listed[place as int]@ == interface && forall|k: int|
                    0 <= k < place ==> (#[trigger] listed[k])@ != interface
            }
        },
        Ok(DeviceChoice::Pseudo) => interface == any_selector() && !has_default && listed.len()
            == 0,
        Err(error) => {
            &&& error == ConfigError::InterfaceNotFound
            &&& interface != any_selector()
            &&& forall|k: int| 0 <= k < listed.len() ==> (#[trigger] listed[k])@ != interface
        },
    }
}

/// No two choices are the device of one session.
pub proof fn law_device_choice_is_unique(
    first: Result<DeviceChoice, ConfigError>,
    second: Result<DeviceChoice, ConfigError>,
    interface: Seq<char>,
    has_default: bool,
    listed: Seq<String>,
)
    requires
        is_device_for(first, interface, has_default, listed),
        is_device_for(second, interface, has_default, listed),
    ensures
        first == second,
{
    if let Ok(DeviceChoice::Listed(a)) = first {
        if let Ok(DeviceChoice::Listed(b)) = second {
            if interface != any_selector() {
                if a < b {
                    assert(listed[a as int]@ != interface);
                }
                if b < a {
                    assert(listed[b as int]@ != interface);
                }
            }
        }
    }
}

/// Lists the network interfaces of the host with `pnet::datalink::interfaces`
/// and hands over of each its name, the octets of its hardware address and
/// its IP addresses, an IP address as the number that std converts it to.
///
/// Verus does not read the body. Nothing is claimed of the list: it is
/// whatever the host reports at the time of the call.
#[verifier::external_body]
fn host_interfaces() -> (interfaces: Vec<InterfaceInfo>) {
    pnet::datalink::interfaces().into_iter().map(|i| InterfaceInfo {
        name: i.name,
        mac: i.mac.map(|m| m.octets()),
        ips: i.ips.iter().map(|n| match n {
            pnet::ipnetwork::IpNetwork::V4(v4) => IpAddress::V4(u32::from(v4.ip())),
            pnet::ipnetwork::IpNetwork::V6(v6) => IpAddress::V6(u128::from(v6.ip())),
        }).collect(),
    }).collect()
}

impl View for PacketCapture {
    type V = CaptureConfig;

    closed spec fn view(&self) -> CaptureConfig {
        CaptureConfig {
            interface: self.interface@,
            filter: self.filter@,
            payload_only: self.payload_only,
        }
    }
}

impl PacketCapture {
    /// A session on `interface` with the capture filter `filter`.
    pub fn new(interface: String, filter: String, payload_only: bool) -> (capture: PacketCapture)
        ensures
            capture@ == (CaptureConfig { interface: interface@, filter: filter@, payload_only }),
    {
        PacketCapture { interface, filter, payload_only }
    }

    /// The local addresses of the given kind on the interfaces that
    /// `interface_name` selects, as the host reports them now.
    pub fn get_local_addresses(interface_name: &str, mode: ClassifierMode) -> (local:
        LocalAddressSet)
        ensures
            local@.mode == mode,
            exists|interfaces: Seq<InterfaceInfo>|
                local@ == #[trigger] local_addresses(mode, interface_name@, interfaces),
    {
        let interfaces = host_interfaces();
        LocalAddressSet::from_interfaces(mode, interface_name, &interfaces)
    }

    /// The hardware addresses of the interfaces that `interface_name`
    /// selects, as the host reports them now.
    pub fn get_local_macs(interface_name: &str) -> (local: LocalAddressSet)
        ensures
            local@.mode == ClassifierMode::MacBased,
            local@.ips == Set::<IpAddress>::empty(),
            exists|interfaces: Seq<InterfaceInfo>|
                local@ == #[trigger] local_addresses(
                    ClassifierMode::MacBased,
                    interface_name@,
                    interfaces,
                ),
    {
        Self::get_local_addresses(interface_name, ClassifierMode::MacBased)
    }

    /// The payload length of a frame, with the length of the buffer as its
    /// captured length.
    pub fn get_payload_size(packet_data: &[u8]) -> (size: u32)
        ensures
            size == payload_length(packet_data@, captured_length(packet_data@)),
    {
        proof {
            crate::frame::lemma_payload_length_range(
                packet_data@,
                captured_length(packet_data@),
            );
        }
        parse_frame(packet_data, Self::buffer_length(packet_data)).payload_length
    }

    /// The direction of a frame under the strategy of `local`.
    pub fn determine_direction(packet_data: &[u8], local: &LocalAddressSet) -> (direction:
        TrafficDirection)
        ensures
            direction == direction_of(parsed(packet_data@, captured_length(packet_data@)), local@),
    {
        let frame = parse_frame(packet_data, Self::buffer_length(packet_data));
        classify(&frame, local)
    }

    fn buffer_length(packet_data: &[u8]) -> (length: u32)
        ensures
            length == captured_length(packet_data@),
    {
        if packet_data.len() > 0xFFFF_FFFF {
            0xFFFF_FFFF
        } else {
            packet_data.len() as u32
        }
    }

    /// The record of one captured frame, stamped with `timestamp`.
    pub fn record_at(
        &self,
        packet_data: &[u8],
        caplen: u32,
        local: &LocalAddressSet,
        timestamp: u128,
    ) -> (record: PacketInfo)
        ensures
            record == record_of(packet_data@, caplen, self@.payload_only, local@, timestamp),
    {
        let frame = parse_frame(packet_data, caplen);
        let direction = classify(&frame, local);
        let size = if self.payload_only {
            frame.payload_length
        } else {
            caplen
        };
        PacketInfo { timestamp, size, direction }
    }

    /// Decides what the capture loop does with what it read: a frame is
    /// classified, stamped with the present clock reading and sent on; a
    /// timeout is no error and is followed by another read; a failure of the
    /// device ends the session.
    pub fn step(&self, event: CaptureEvent<'_>, local: &LocalAddressSet) -> (action: CaptureAction)
        ensures
            (match event {
                CaptureEvent::Packet { data, caplen } => exists|timestamp: u128|
                    action == CaptureAction::Send(
                        #[trigger] record_of(data@, caplen, self@.payload_only, local@, timestamp),
                    ),
                CaptureEvent::Timeout => action == CaptureAction::Retry,
                CaptureEvent::Failure => action == CaptureAction::Abort,
            }),
    {
        match event {
            CaptureEvent::Packet { data, caplen } => {
                let timestamp = nanos_of(elapsed_since_epoch());
                CaptureAction::Send(self.record_at(data, caplen, local, timestamp))
            },
            CaptureEvent::Timeout => CaptureAction::Retry,
            CaptureEvent::Failure => CaptureAction::Abort,
        }
    }

    /// Whether the loop goes on after a record was handed to the consumer:
    /// it does while the consumer takes them.
    pub fn continues_after_send(delivered: bool) -> (goes_on: bool)
        ensures
            goes_on == delivered,
    {
        delivered
    }

    /// Chooses the capture device of the session among those of the host.
    pub fn select_device(&self, has_default: bool, listed: &Vec<String>) -> (choice: Result<
        DeviceChoice,
        ConfigError,
    >)
        ensures
            is_device_for(choice, self@.interface, has_default, listed@),
            choice.is_err() <==> self@.interface != any_selector() && forall|k: int|
                0 <= k < listed@.len() ==> (#[trigger] listed@[k])@ != self@.interface,
    {
        if is_any(self.interface.as_str()) {
            if has_default {
                Ok(DeviceChoice::Default)
            } else if listed.len() > 0 {
                Ok(DeviceChoice::Listed(0))
            } else {
                Ok(DeviceChoice::Pseudo)
            }
        } else {
            match find_name(self.interface.as_str(), listed) {
                Some(place) => Ok(DeviceChoice::Listed(place)),
                None => Err(ConfigError::InterfaceNotFound),
            }
        }
    }

    /// The interface of the session.
    pub fn interface(&self) -> (name: &String)
        ensures
            name@ == self@.interface,
    {
        &self.interface
    }

    /// The capture filter of the session.
    pub fn filter(&self) -> (expression: &String)
        ensures
            expression@ == self@.filter,
    {
        &self.filter
    }

    /// Whether only payload bytes count.
    pub fn payload_only(&self) -> (flag: bool)
        ensures
            flag == self@.payload_only,
    {
        self.payload_only
    }
}

} // verus!
