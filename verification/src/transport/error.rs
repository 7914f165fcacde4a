use vstd::prelude::*;

use crate::transport::secs1::config::DeviceId;

verus! {

/// Failures of the SECS transport.
#[derive(Debug, PartialEq, Eq)]
pub enum SecsTransportError {
    /// Failed to connect; carries the description of the cause, where there is one.
    ConnectionFailed(Option<String>),
    /// Failed to send a message.
    SendFailed,
    /// Failed to receive a message.
    RecvFailed,
    /// The connection was closed.
    ConnectionClosed,
    /// A protocol timer expired.
    Timeout(SecsTimeoutType),
    /// A block is not valid.
    BlockInvalid,
    /// A block has an invalid size.
    BlockSizeInvalid(u32),
    /// There is no block to send.
    NothingToSend,
    /// A block names a device that is not the configured one.
    UnknownDeviceId(DeviceId),
}

/// The SECS-I protocol timers.
#[derive(Debug, Clone, Copy, PartialEq, Eq, Structural)]
pub enum SecsTimeoutType {
    /// Inter-character timeout.
    T1,
    /// Protocol timeout.
    T2,
    /// Reply timeout.
    T3,
    /// Inter-block timeout.
    T4,
}

} // verus!
