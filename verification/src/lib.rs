//! Vehicle-communication core for a ground-control application.
//!
//! The crate turns a byte-oriented physical link into a message-oriented
//! connection to a remote autopilot and layers mission transfer, parameter
//! synchronisation and latest-value state distribution on top of it.
//!
//! Physical I/O (sockets, serial ports, Bluetooth) is owned by the caller:
//! a transport driver pushes raw chunks into a [`bridge::ByteBridge`] and
//! drains outbound units from it, while the components here hold the
//! protocol logic and its proofs.

pub mod bridge;
pub mod framing;
pub mod link;
pub mod mission;
pub mod params;
pub mod vehicle;
pub mod watch;
