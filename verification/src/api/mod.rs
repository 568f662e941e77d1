//! What the coordinator says and what is said to it.

pub mod client;
pub mod types;
