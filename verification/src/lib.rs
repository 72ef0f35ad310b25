//! Core logic of a DMX512 lighting-control link.
//!
//! The library owns the 513-byte DMX frame (start code plus 512 channel
//! levels), the registry of the desired and currently opened serial port,
//! the per-cycle decisions of the writer loop, and the port-listing rules.
//! Serial I/O itself is performed by the host shell, which feeds results
//! back into the decision functions defined here.

pub mod control;
pub mod errors;
pub mod ports;
pub mod state;
pub mod writer;
