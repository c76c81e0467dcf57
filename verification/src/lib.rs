//! Decoders for the kernel's textual system-state reports: the CPU/interrupt
//! counter report, the memory counter report, and the per-protocol socket
//! tables. Each decoder turns a complete report text into a typed record;
//! its behaviour is stated over byte-sequence models of the text.

use vstd::prelude::*;

pub mod counters;
pub mod memory;
pub mod numbers;
pub mod scan;
pub mod sockets;

pub use counters::{stat, to_u64, to_vecu64, Stat};
pub use memory::{meminfo, MemInfo};
pub use sockets::{net, to_ipaddr, to_net_socket, Socket, SocketState, SocketTimerState};

verus! {

/// A structural decode failure: the input violates the fixed column or token
/// contract of the report being decoded. Missing *lines* in the counter and
/// memory reports are not errors; missing columns or malformed tokens are.
#[derive(Clone, Copy, Debug, PartialEq, Eq)]
pub enum DecodeError {
    /// A required column or value token is absent.
    MissingField,
    /// A token expected to be a decimal number is malformed or out of range.
    BadDecimal,
    /// A token expected to be hexadecimal is malformed or out of range.
    BadHex,
    /// A hex-encoded address field holds fewer than four bytes.
    BadAddress,
    /// A connection-state code lies outside the valid range.
    BadStateCode,
}

} // verus!
