//! Filter pipelines: their filters and what they need of message bodies.

pub mod body;
pub mod filter;
