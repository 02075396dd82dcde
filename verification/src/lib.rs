//! Raw datagram sockets with ancillary (control) message support.
//!
//! The crate's verified core holds the binary codec for ancillary control
//! messages, the socket option identifier table, the address model with its
//! byte-level reader, and the readiness-driven retry state machine that
//! an asynchronous wrapper runs. The actual socket system calls are left to
//! an unverified shell that feeds plain values in and out of this core.

pub mod addr;
pub mod bytes;
pub mod control;
pub mod retry;
pub mod sockopt;
