//! Discovery and control of networked smart-lighting devices over a
//! UDP-based binary protocol.
//!
//! The crate holds the protocol logic: a message codec, a frame builder,
//! a device registry, a discovery state machine and a command dispatcher,
//! all stated over plain values and verified. The sockets that carry the
//! frames live outside the crate; they hand datagrams in as byte vectors
//! and send the byte vectors the crate hands out.

pub mod codec;
pub mod frame;
pub mod registry;

pub mod discovery;
pub mod dispatch;
