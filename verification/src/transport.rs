pub mod error;
pub mod secs1;

use vstd::prelude::*;

verus! {

/// The role of a party in SECS communication.
#[derive(Debug, Clone, Copy, PartialEq, Eq, Structural)]
pub enum ConnectionMode {
    /// The side that initiates requests (master / host).
    Active,
    /// The side that answers requests (slave / equipment).
    Passive,
}

} // verus!
