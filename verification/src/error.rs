//! The configuration errors of a session.

use vstd::prelude::*;

verus! {

/// Why a configuration is rejected before a session starts.
#[derive(Debug, Clone, Copy, PartialEq, Eq, Structural)]
pub enum ConfigError {
    /// The interface name is empty.
    EmptyInterface,
    /// The capture filter expression is empty.
    EmptyFilter,
    /// The update interval is zero.
    ZeroInterval,
    /// The monitoring duration is given and zero.
    ZeroDuration,
    /// The window duration is zero.
    ZeroWindow,
    /// No capture device has the requested name.
    InterfaceNotFound,
}

} // verus!
