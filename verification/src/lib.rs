//! SECS-I (SEMI E4) transport: block headers, block framing, the
//! length/checksum codec, the block-transfer line protocol and the
//! message assembly of received blocks.

pub mod transport;
