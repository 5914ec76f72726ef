//! RCT Power serial protocol: frame building, incremental frame parsing,
//! CRC16 and value encoding, with machine-checked contracts.

pub mod client;
pub mod codec;
pub mod error;
pub mod float_bits;
pub mod frame;
pub mod frame_laws;
pub mod proxy;
pub mod registry;
pub mod types;
pub mod writable;

pub use error::RctError;
pub use types::{Command, DataType, DataValue, FrameType, ObjectGroup};
