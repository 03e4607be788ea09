//! Verified core of a laptop-control daemon: a hardware abstraction layer
//! over textual attribute files, a USB keyboard-lighting packet protocol,
//! a temperature-to-fan-duty curve, a shared configuration store, and the
//! request/response command protocol that ties them together.
//!
//! Everything here is pure logic: parsing, validation, encoding and state
//! transitions. The surrounding process performs the actual file, socket,
//! subprocess and USB I/O and feeds the results back into these functions.

pub mod config;
pub mod fan_curve;
pub mod hardware;
pub mod keyboard;
pub mod server;
pub mod text;
pub mod types;

