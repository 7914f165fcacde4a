use std::time::Duration;

use vstd::prelude::*;

use crate::transport::ConnectionMode;

verus! {

/// Identifier of a device on a SECS-I link (15 significant bits on the wire).
#[derive(Debug, Clone, Copy, PartialEq, Eq, PartialOrd, Ord, Hash, Structural)]
pub struct DeviceId(pub u16);

/// Settings of a SECS-I connection.
pub struct Secs1TransportConfig {
    /// Identifier of the device at the other end.
    pub device_id: DeviceId,
    /// Communication mode (active / passive).
    pub mode: ConnectionMode,
    /// Inter-character timeout: length byte to second checksum byte.
    pub t1_timeout: Duration,
    /// Protocol timeout: ENQ to EOT, EOT to length byte, checksum to reply.
    pub t2_timeout: Duration,
    /// Reply timeout.
    pub t3_timeout: Duration,
    /// Inter-block timeout.
    pub t4_timeout: Duration,
    /// How many times a block transfer is retried after a T2 timeout.
    pub t2_rty: u8,
}

} // verus!
