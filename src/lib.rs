//! A cross-chain key-value exchange protocol: a tagged operation codec on a
//! word-aligned, offset-addressed binary layout, channel negotiation rules and
//! the packet handling that turns inbound bytes into acknowledgements.
pub mod wire;
pub mod msg;
pub mod error;
pub mod channel;
pub mod packet;
