//! Session relay core for a small SMTP-to-HTTP mail relay.
//!
//! The library holds the logic of the relay: the line-oriented SMTP command
//! parser, the address parser, the buffering/forwarding relay writer, the
//! mailbox registry, and the per-session state machines.  All network I/O is
//! left to the surrounding application, which feeds lines in and carries the
//! produced write actions out to the sockets they name.

pub mod email;
pub mod log_io;
pub mod mailbox;
pub mod registry;
pub mod session;
pub mod smtp_stream;
pub mod text;
pub mod web;
