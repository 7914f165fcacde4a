pub mod block;
pub mod buffer;
pub mod codec;
pub mod config;
pub mod link;
pub mod message;
pub mod transport;
