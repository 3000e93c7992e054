//! The direction classifier: from the addresses of a frame and the local
//! address set to inbound, outbound or unknown.

use vstd::prelude::*;
use crate::capture::TrafficDirection;
use crate::frame::ParsedFrame;
use crate::oracle::{ClassifierMode, LocalAddressSet, LocalAddresses};

verus! {

/// The decision table of the MAC-based strategy.
///
/// A frame between a local and a remote address goes the way the local
/// address says, whatever the destination's group status. Between two local
/// or two remote addresses only a broadcast or multicast destination
/// decides: outbound from a local source, inbound from a remote one.
pub open spec fn mac_decision(
    source_local: bool,
    dest_local: bool,
    dest_broadcast: bool,
    dest_multicast: bool,
) -> TrafficDirection {
    if source_local && !dest_local {
        TrafficDirection::Outbound
    } else if dest_local && !source_local {
        TrafficDirection::Inbound
    } else if dest_broadcast || dest_multicast {
        if source_local {
            TrafficDirection::Outbound
        } else {
            TrafficDirection::Inbound
        }
    } else {
        TrafficDirection::Unknown
    }
}

/// The decision table of the IP-based strategy: a direction only where
/// exactly one of the two addresses is local.
pub open spec fn ip_decision(source_local: bool, dest_local: bool) -> TrafficDirection {
    if source_local && !dest_local {
        TrafficDirection::Outbound
    } else if dest_local && !source_local {
        TrafficDirection::Inbound
    } else {
        TrafficDirection::Unknown
    }
}

/// The direction of a parsed frame under the strategy of `local`. A frame
/// whose required header is absent has no known direction.
pub open spec fn direction_of(frame: ParsedFrame, local: LocalAddresses) -> TrafficDirection {
    match local.mode {
        ClassifierMode::MacBased => match frame.ethernet {
            Some(ethernet) => mac_decision(
                local.macs.contains(ethernet.source),
                local.macs.contains(ethernet.destination),
                ethernet.destination.spec_is_broadcast(),
                ethernet.destination.spec_is_multicast(),
            ),
            None => TrafficDirection::Unknown,
        },
        ClassifierMode::IpBased => match frame.ip {
            Some(header) => ip_decision(
                local.ips.contains(header.source),
                local.ips.contains(header.destination),
            ),
            None => TrafficDirection::Unknown,
        },
    }
}

/// Locality takes precedence: where exactly one of the two hardware
/// addresses is local, the group status of the destination changes nothing.
pub proof fn law_locality_takes_precedence(
    source_local: bool,
    dest_local: bool,
    dest_broadcast: bool,
    dest_multicast: bool,
    other_broadcast: bool,
    other_multicast: bool,
)
    requires
        source_local != dest_local,
    ensures
        mac_decision(source_local, dest_local, dest_broadcast, dest_multicast) == mac_decision(
            source_local,
            dest_local,
            other_broadcast,
            other_multicast,
        ),
        mac_decision(source_local, dest_local, dest_broadcast, dest_multicast) == ip_decision(
            source_local,
            dest_local,
        ),
{
}

/// The direction is unknown exactly where both addresses are local or both
/// remote and, under the MAC-based strategy, the destination is no group
/// address.
pub proof fn law_unknown_means_transit(
    source_local: bool,
    dest_local: bool,
    dest_broadcast: bool,
    dest_multicast: bool,
)
    ensures
        mac_decision(source_local, dest_local, dest_broadcast, dest_multicast)
            == TrafficDirection::Unknown <==> source_local == dest_local && !dest_broadcast
            && !dest_multicast,
        ip_decision(source_local, dest_local) == TrafficDirection::Unknown <==> source_local
            == dest_local,
{
}

/// A frame whose required header is absent is unknown: under the MAC-based
/// strategy a frame without an Ethernet header, under the IP-based one a
/// frame without an IP header.
pub proof fn law_malformed_frame_is_unknown(frame: ParsedFrame, local: LocalAddresses)
    requires
        (match local.mode {
            ClassifierMode::MacBased => frame.ethernet.is_none(),
            ClassifierMode::IpBased => frame.ip.is_none(),
        }),
    ensures
        direction_of(frame, local) == TrafficDirection::Unknown,
{
}

/// Decides the direction of a frame from the locality of its hardware
/// addresses and the group status of its destination.
pub fn classify_mac(
    source_local: bool,
    dest_local: bool,
    dest_broadcast: bool,
    dest_multicast: bool,
) -> (direction: TrafficDirection)
    ensures
        direction == mac_decision(source_local, dest_local, dest_broadcast, dest_multicast),
{
    match (source_local, dest_local, dest_broadcast, dest_multicast) {
        (true, false, _, _) => TrafficDirection::Outbound,
        (false, true, _, _) => TrafficDirection::Inbound,
        (true, _, true, _) | (true, _, _, true) => TrafficDirection::Outbound,
        (false, _, true, _) | (false, _, _, true) => TrafficDirection::Inbound,
        _ => TrafficDirection::Unknown,
    }
}

/// Decides the direction of a frame from the locality of its IP addresses.
pub fn classify_ip(source_local: bool, dest_local: bool) -> (direction: TrafficDirection)
    ensures
        direction == ip_decision(source_local, dest_local),
{
    match (source_local, dest_local) {
        (true, false) => TrafficDirection::Outbound,
        (false, true) => TrafficDirection::Inbound,
        _ => TrafficDirection::Unknown,
    }
}

/// Classifies a parsed frame against the local address set.
pub fn classify(frame: &ParsedFrame, local: &LocalAddressSet) -> (direction: TrafficDirection)
    ensures
        direction == direction_of(*frame, local@),
{
    match local.mode() {
        ClassifierMode::MacBased => match frame.ethernet {
            Some(ethernet) => classify_mac(
                local.contains_mac(ethernet.source),
                local.contains_mac(ethernet.destination),
                ethernet.destination.is_broadcast(),
                ethernet.destination.is_multicast(),
            ),
            None => TrafficDirection::Unknown,
        },
        ClassifierMode::IpBased => match frame.ip {
            Some(header) => classify_ip(
                local.contains_ip(header.source),
                local.contains_ip(header.destination),
            ),
            None => TrafficDirection::Unknown,
        },
    }
}

} // verus!
