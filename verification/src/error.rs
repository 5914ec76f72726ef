//! Errors of the protocol layer.

use vstd::prelude::*;

use crate::types::DataValue;

verus! {

/// Errors produced while building, parsing, encoding or decoding frames.
///
/// Failures of the transport (I/O, connection) are not part of this type.
#[derive(Debug)]
pub enum RctError {
    /// Frame CRC mismatch; `consumed` bytes of the input were used.
    FrameCrcMismatch { received: u16, calculated: u16, consumed: usize },
    /// The frame consumed more bytes than its length field announced.
    FrameLengthExceeded { consumed: usize },
    /// Invalid command byte `cmd`; `consumed` bytes of the input were used.
    InvalidCommand { cmd: u8, consumed: usize },
    /// Unknown data type, by name.
    UnknownDataType(String),
    /// Payload too short for the data type `ty`.
    PayloadTooShort { ty: &'static str, len: usize, need: usize },
    /// Invalid value for a parameter; the value itself is carried.
    InvalidValue { name: String, value: DataValue },
    /// Response timeout
    Timeout,
    /// No response payload
    EmptyPayload,
}

} // verus!
