//! How filters declare their interest in message bodies.

use vstd::prelude::*;

verus! {

/// Hard ceiling on any buffered body, in bytes.
pub const ABSOLUTE_MAX_BODY_BYTES: usize = 67_108_864;

/// Largest JSON request body that is buffered, in bytes.
pub const MAX_JSON_BODY_BYTES: usize = 67_108_864;

/// What a filter does with a body.
#[derive(Debug, Clone, Copy, PartialEq, Eq, Structural)]
pub enum BodyAccess {
    /// It does not look at the body.
    NoAccess,
    /// It reads the body.
    ReadOnly,
    /// It reads the body and may replace it.
    ReadWrite,
}

/// How a body is delivered.
#[allow(inconsistent_fields)]
#[derive(Debug, Clone, Copy, PartialEq, Eq, Structural)]
pub enum BodyMode {
    /// Chunk by chunk.
    Stream,
    /// Chunk by chunk, refused above a size.
    SizeLimit {
        /// The largest accepted body.
        max_bytes: usize,
    },
    /// Collected whole before it is delivered.
    StreamBuffer {
        /// The largest buffered body; `None` is unbounded.
        max_bytes: Option<usize>,
    },
}

/// What the filters of a pipeline need of bodies, taken together.
#[derive(Debug, Clone, Copy, PartialEq, Eq, Structural)]
pub struct BodyCapabilities {
    /// Some filter takes the request body.
    pub needs_request_body: bool,
    /// Some filter may replace the request body.
    pub any_request_body_writer: bool,
    /// How the request body is delivered.
    pub request_body_mode: BodyMode,
    /// Some filter takes the request body once an upstream is selected.
    pub needs_selected_upstream_request_body: bool,
    /// Some filter may replace the request body once an upstream is selected.
    pub any_selected_upstream_request_body_writer: bool,
    /// Some filter takes the response body.
    pub needs_response_body: bool,
    /// Some filter may replace the response body.
    pub any_response_body_writer: bool,
    /// How the response body is delivered.
    pub response_body_mode: BodyMode,
    /// Some filter that takes the response body runs on a condition.
    pub any_response_body_condition: bool,
    /// Some response condition looks at headers.
    pub any_response_condition_uses_headers: bool,
    /// Some filter takes response trailers.
    pub needs_response_trailers: bool,
    /// Some filter needs the request context.
    pub needs_request_context: bool,
}

/// The capabilities of a pipeline in which no filter asks for anything.
pub open spec fn no_capabilities() -> BodyCapabilities {
    BodyCapabilities {
        needs_request_body: false,
        any_request_body_writer: false,
        request_body_mode: BodyMode::Stream,
        needs_selected_upstream_request_body: false,
        any_selected_upstream_request_body_writer: false,
        needs_response_body: false,
        any_response_body_writer: false,
        response_body_mode: BodyMode::Stream,
        any_response_body_condition: false,
        any_response_condition_uses_headers: false,
        needs_response_trailers: false,
        needs_request_context: false,
    }
}

impl Default for BodyCapabilities {
    fn default() -> (caps: BodyCapabilities)
        ensures
            caps == no_capabilities(),
    {
        BodyCapabilities {
            needs_request_body: false,
            any_request_body_writer: false,
            request_body_mode: BodyMode::Stream,
            needs_selected_upstream_request_body: false,
            any_selected_upstream_request_body_writer: false,
            needs_response_body: false,
            any_response_body_writer: false,
            response_body_mode: BodyMode::Stream,
            any_response_body_condition: false,
            any_response_condition_uses_headers: false,
            needs_response_trailers: false,
            needs_request_context: false,
        }
    }
}

} // verus!
