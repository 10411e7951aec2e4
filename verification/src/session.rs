//! Sessions: a connection seen from the side of the peer is its session,
//! and the table of connections is the manager of the sessions.

use crate::connection::{Connection, ConnectionHandler};
use vstd::prelude::*;

verus! {

/// Network session
pub type Session = Connection;

/// Manages and updates sessions.
pub type SessionManager = ConnectionHandler;

} // verus!
