//! Binary encoder for the SSH wire format of RFC 4251: length-prefixed byte
//! blocks, big-endian integers, `mpint` arbitrary-precision integers, string
//! sequences, string maps, and typed public-key records.

pub mod encoding;
pub mod pubkey;
pub mod strmap;
pub mod writer;
