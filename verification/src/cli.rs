//! The settings of a session and their validation.

use vstd::prelude::*;
use crate::error::ConfigError;
use crate::text::{any_selector, find_name, is_any};

verus! {

/// The settings of a session, as given on the command line.
#[derive(Debug, Clone)]
pub struct Args {
    /// Network interface to monitor.
    pub interface: String,
    /// Capture filter expression.
    pub filter: String,
    /// Update interval in seconds.
    pub interval: u64,
    /// Total monitoring duration in seconds.
    pub duration: Option<u64>,
    /// Count payload bytes only.
    pub payload_only: bool,
    /// Number of samples to smooth over.
    pub smoothing: usize,
}

/// The first fault of the settings, if they have one: an empty interface
/// name, then an empty filter, then a zero interval, then a zero duration.
pub open spec fn settings_fault(args: Args) -> Option<ConfigError> {
    if args.interface@.len() == 0 {
        Some(ConfigError::EmptyInterface)
    } else if args.filter@.len() == 0 {
        Some(ConfigError::EmptyFilter)
    } else if args.interval == 0 {
        Some(ConfigError::ZeroInterval)
    } else if args.duration == Some(0u64) {
        Some(ConfigError::ZeroDuration)
    } else {
        None
    }
}

/// Whether a capture device of that name can be asked for: `any` always,
/// another name if it is among the devices.
pub open spec fn interface_known(name: Seq<char>, devices: Seq<String>) -> bool {
    name == any_selector() || exists|i: int| 0 <= i < devices.len() && (#[trigger] devices[i])@
        == name
}

/// What the validation of the settings gives against the capture devices
/// of the host: the first fault of the settings, else the refusal of an
/// interface that is neither `any` nor the name of a device.
pub open spec fn validation(args: Args, devices: Seq<String>) -> Result<(), ConfigError> {
    match settings_fault(args) {
        Some(fault) => Err(fault),
        None => if interface_known(args.interface@, devices) {
            Ok(())
        } else {
            Err(ConfigError::InterfaceNotFound)
        },
    }
}

/// Whether the validation of these settings looks at the capture devices:
/// it does where the settings have no fault and the interface is not `any`.
/// Where it does not, any list serves, the empty one too.
pub fn needs_device_list(args: &Args) -> (needed: bool)
    ensures
        needed == (settings_fault(*args) is None && args.interface@ != any_selector()),
        !needed ==> forall|devices: Seq<String>|
            #[trigger] validation(*args, devices) == validation(*args, Seq::<String>::empty()),
{
    match check_settings(args) {
        Some(_) => false,
        None => !is_any(args.interface.as_str()),
    }
}

/// Finds the first fault of the settings.
fn check_settings(args: &Args) -> (fault: Option<ConfigError>)
    ensures
        fault == settings_fault(*args),
{
    if args.interface.as_str().is_empty() {
        return Some(ConfigError::EmptyInterface);
    }
    if args.filter.as_str().is_empty() {
        return Some(ConfigError::EmptyFilter);
    }
    if args.interval == 0 {
        return Some(ConfigError::ZeroInterval);
    }
    if let Some(duration) = args.duration {
        if duration == 0 {
            return Some(ConfigError::ZeroDuration);
        }
    }
    None
}

/// Validates the settings of a session against the capture devices of the
/// host. The settings are sound where the interface name and the filter are
/// not empty, the interval is not zero, the duration is not given as zero,
/// and the interface is `any` or the name of a device.
pub fn validate_args(args: &Args, devices: &Vec<String>) -> (result: Result<(), ConfigError>)
    ensures
        result == validation(*args, devices@),
        result.is_ok() <==> args.interface@.len() > 0 && args.filter@.len() > 0 && args.interval
            > 0 && args.duration != Some(0u64) && interface_known(args.interface@, devices@),
{
    match check_settings(args) {
        Some(fault) => Err(fault),
        None => validate_interface(args.interface.as_str(), devices),
    }
}

/// Checks that the interface exists among the capture devices of the host.
pub fn validate_interface(interface_name: &str, devices: &Vec<String>) -> (result: Result<
    (),
    ConfigError,
>)
    ensures
        interface_known(interface_name@, devices@) <==> result == Ok::<(), ConfigError>(()),
        !interface_known(interface_name@, devices@) <==> result == Err::<(), ConfigError>(
            ConfigError::InterfaceNotFound,
        ),
{
    if is_any(interface_name) {
        return Ok(());
    }
    match find_name(interface_name, devices) {
        Some(_) => Ok(()),
        None => Err(ConfigError::InterfaceNotFound),
    }
}

} // verus!
