//! Core of a display-server protocol client: the wire codec, the table of
//! live objects, the table of advertised globals, and a connection state
//! that queues events and dispatches them in order.
//!
//! The library never touches a transport. A connection value takes the bytes
//! that were read and hands out the bytes to be written, so every decision it
//! makes is a function of plain values.

pub mod error;
pub mod wire;
pub mod codec;
pub mod schema;
pub mod registry;
pub mod globals;
pub mod connection;
pub mod endpoint;
pub mod event;
