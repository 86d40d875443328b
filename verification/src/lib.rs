//! The logic of a Responses API proxy: what filter pipelines need of message
//! bodies, how stored responses and conversations are addressed and paged, and
//! how a request is rehydrated with its stored history.

pub mod body;
pub mod filter;
pub mod json;
pub mod pipeline;
pub mod rehydrate;
pub mod state;
pub mod store;
pub mod tcp_metrics;
pub mod text;
