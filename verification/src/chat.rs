//! The scheduling-independent core of a multi-client chat server.
//!
//! The server is modelled as a state machine: the surrounding program owns the
//! sockets and the clock, reports what happened (a connection, a message, a
//! disconnect, a timer) and carries out the actions that come back.
use vstd::prelude::*;

pub mod admission;
pub mod directory;
pub mod framing;
pub mod handshake;
pub mod laws;
pub mod messages;
pub mod model;
pub mod outbox;
pub mod reactor;
pub mod room;
pub mod router;
pub mod server;
pub mod session;
pub mod shutdown;
