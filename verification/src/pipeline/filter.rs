//! The filters of a pipeline, by what they declare.

use vstd::prelude::*;

use crate::body::{BodyAccess, BodyMode};

verus! {

/// What an HTTP filter declares of the hooks it has.
#[derive(Debug)]
pub struct HttpDeclarations {
    /// Access to the request body before an upstream is chosen.
    pub request_body_access: BodyAccess,
    /// How the filter wants the request body delivered.
    pub request_body_mode: BodyMode,
    /// Access to the request body at the bound-upstream barrier.
    pub bound_upstream_request_body_access: BodyAccess,
    /// Access to the request body once an upstream is selected.
    pub selected_upstream_request_body_access: BodyAccess,
    /// Access to the response body.
    pub response_body_access: BodyAccess,
    /// How the filter wants the response body delivered.
    pub response_body_mode: BodyMode,
    /// Whether the filter takes response trailers.
    pub response_trailer_access: bool,
    /// Whether the filter needs the request context.
    pub needs_request_context: bool,
}

/// A filter that declares no interest in anything.
pub open spec fn silent_declarations() -> HttpDeclarations {
    HttpDeclarations {
        request_body_access: BodyAccess::NoAccess,
        request_body_mode: BodyMode::Stream,
        bound_upstream_request_body_access: BodyAccess::NoAccess,
        selected_upstream_request_body_access: BodyAccess::NoAccess,
        response_body_access: BodyAccess::NoAccess,
        response_body_mode: BodyMode::Stream,
        response_trailer_access: false,
        needs_request_context: false,
    }
}

impl Default for HttpDeclarations {
    fn default() -> (declarations: HttpDeclarations)
        ensures
            declarations == silent_declarations(),
    {
        HttpDeclarations {
            request_body_access: BodyAccess::NoAccess,
            request_body_mode: BodyMode::Stream,
            bound_upstream_request_body_access: BodyAccess::NoAccess,
            selected_upstream_request_body_access: BodyAccess::NoAccess,
            response_body_access: BodyAccess::NoAccess,
            response_body_mode: BodyMode::Stream,
            response_trailer_access: false,
            needs_request_context: false,
        }
    }
}

/// A filter of either protocol.
#[derive(Debug)]
pub enum AnyFilter {
    /// An HTTP filter.
    Http(HttpDeclarations),
    /// A TCP filter, which has no message bodies.
    Tcp,
}

/// An application protocol and provider that a condition asks for.
#[derive(Debug)]
pub struct ApplicationMatch {
    /// The protocol, where one is asked for.
    pub application_protocol: Option<String>,
    /// The provider, where one is asked for.
    pub application_provider: Option<String>,
}

/// What a request condition asks for.
#[derive(Debug)]
pub struct ConditionMatch {
    /// The upstream that the router has bound.
    pub bound_upstream: Option<ApplicationMatch>,
}

/// A condition on the request.
#[derive(Debug)]
pub enum Condition {
    /// The filter runs when the request matches.
    When(ConditionMatch),
    /// The filter runs unless the request matches.
    Unless(ConditionMatch),
}

impl Condition {
    /// What the condition asks for.
    pub open spec fn asks(self) -> ConditionMatch {
        match self {
            Condition::When(m) => m,
            Condition::Unless(m) => m,
        }
    }
}

/// What a response condition asks for.
#[derive(Debug)]
pub struct ResponseConditionMatch {
    /// Status codes, where they matter.
    pub status: Option<Vec<u16>>,
    /// Headers and their values, where they matter.
    pub headers: Option<Vec<(String, String)>>,
}

/// A condition on the response.
#[derive(Debug)]
pub enum ResponseCondition {
    /// The filter runs when the response matches.
    When(ResponseConditionMatch),
    /// The filter runs unless the response matches.
    Unless(ResponseConditionMatch),
}

impl ResponseCondition {
    /// What the condition asks for.
    pub open spec fn asks(self) -> ResponseConditionMatch {
        match self {
            ResponseCondition::When(m) => m,
            ResponseCondition::Unless(m) => m,
        }
    }
}

/// A sub-chain of filters that a filter may branch into.
#[derive(Debug)]
pub struct ResolvedBranch {
    /// The branch's name.
    pub name: String,
    /// Its filters, in order.
    pub filters: Vec<PipelineFilter>,
}

/// A filter at its place in a pipeline.
#[derive(Debug)]
pub struct PipelineFilter {
    /// The filter's number.
    pub filter_id: usize,
    /// The filter itself.
    pub filter: AnyFilter,
    /// Conditions on the request.
    pub conditions: Vec<Condition>,
    /// Conditions on the response.
    pub response_conditions: Vec<ResponseCondition>,
    /// Branches that may be taken after the filter.
    pub branches: Vec<ResolvedBranch>,
}

impl PipelineFilter {
    /// A filter without branches.
    pub fn new(
        filter_id: usize,
        filter: AnyFilter,
        conditions: Vec<Condition>,
        response_conditions: Vec<ResponseCondition>,
    ) -> (placed: PipelineFilter)
        ensures
            placed.filter_id == filter_id,
            placed.filter == filter,
            placed.conditions == conditions,
            placed.response_conditions == response_conditions,
            placed.branches@.len() == 0,
    {
        PipelineFilter { filter_id, filter, conditions, response_conditions, branches: Vec::new() }
    }

    /// Whether some request condition asks for a bound upstream.
    pub open spec fn waits_for_binding(self) -> bool {
        exists|i: int|
            0 <= i < self.conditions@.len() && (#[trigger] self.conditions@[i]).asks().bound_upstream is Some
    }

    /// Whether some request condition asks for a bound upstream.
    pub fn has_bound_upstream_condition(&self) -> (found: bool)
        ensures
            found == self.waits_for_binding(),
    {
        for i in 0..self.conditions.len()
            invariant
                forall|j: int|
                    0 <= j < i ==> (#[trigger] self.conditions@[j]).asks().bound_upstream is None,
        {
            let asked = match &self.conditions[i] {
                Condition::When(m) => m,
                Condition::Unless(m) => m,
            };
            if asked.bound_upstream.is_some() {
                assert(self.conditions@[i as int].asks().bound_upstream is Some);
                return true;
            }
        }
        false
    }
}

} // verus!
