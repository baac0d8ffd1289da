//! The protocol engine of a rootless X11 server.
//!
//! Everything the server decides from bytes, tables and input events is here;
//! sockets, the native display and the clock stay with the caller, who hands
//! plain values in and carries out the actions the engine leaves in its outbox.

pub mod display;
pub mod server;
pub mod util;
pub mod wm;
