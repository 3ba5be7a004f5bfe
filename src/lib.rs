//! Codec for the CAN gateway ("cand") wire protocol: endpoint identifiers,
//! CAN frames and the gateway's length-prefixed message stream.
pub mod can;
pub mod cand;
pub mod error;
pub mod lap;
pub mod wire;
