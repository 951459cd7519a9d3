//! User-space control of the CAN broadcast manager: the wire layout of its
//! control messages, the requests that install and remove receive filters,
//! and the decisions that drive a non-blocking socket and a readiness stream.

pub mod word;
pub mod layout;
pub mod msg;
pub mod codec;
pub mod ops;
pub mod socket;
pub mod stream;
