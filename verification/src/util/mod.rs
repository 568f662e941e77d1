//! Encodings the protocol is written in: hexadecimal text, the binary
//! envelope, and the address codec.

pub mod bech;
pub mod cbor;
pub mod cip8;
pub mod hexcode;
pub mod json;
pub mod keys;
pub mod text;
