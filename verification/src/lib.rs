//! Transport core of a RakNet-style UDP protocol: the 24-bit integer, the
//! packet codec, the handshake packets and the per-peer connection state
//! machine.

/// Connections and the table that holds them.
pub mod connection;

/// Internal utilities.
pub mod internal;

/// The packets of the protocol and their form on the wire.
pub mod protocol;

/// The listener's own state and the decisions of its actors.
pub mod server;

/// Sessions.
pub mod session;

pub use crate::server::Motd;
