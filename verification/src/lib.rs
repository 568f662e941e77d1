//! A client engine for a server-issued proof-of-work challenge cycle: the
//! signed envelopes that authenticate an address, the rotation of addresses,
//! the nonce search against a difficulty mask, and the controller that
//! drives one round after another.

pub mod accounting;
pub mod address;
pub mod api;
pub mod donations;
pub mod mining;
pub mod network;
pub mod util;
