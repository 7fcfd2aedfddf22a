//! A lock-step file-transfer protocol engine: a bit-exact codec for the five
//! wire messages and the per-transfer state machine that drives a read or a
//! write over an unreliable datagram channel.
//!
//! The library performs no I/O. Callers hand it datagrams, timeouts and file
//! blocks as plain values and carry out the actions it answers with.

pub mod bytes;
pub mod client;
pub mod digest;
pub mod laws;
pub mod netascii;
pub mod protocol;
pub mod server;
pub mod session;
pub mod text;
pub mod wire;

pub use protocol::{ErrorCode, InvalidMessage, Message, Mode, BLOCK_SIZE};
pub use session::{Action, LocalFailure, PeerAddr, Role, SessionState, TransferSession};
