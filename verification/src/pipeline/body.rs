//! What a pipeline needs of message bodies.
//!
//! Every filter declares its access and the mode in which it wants a body.
//! Merging lets `StreamBuffer` win over every other mode and keeps the largest
//! buffer limit, so that every filter gets enough data.

use vstd::prelude::*;

use crate::body::{BodyAccess, BodyCapabilities, BodyMode, ABSOLUTE_MAX_BODY_BYTES};
use crate::pipeline::filter::{AnyFilter, Condition, HttpDeclarations, PipelineFilter, ResponseCondition};

verus! {

// ---------------------------------------------------------------------------
// Body mode merging
// ---------------------------------------------------------------------------

/// Whether limit `a` leaves room for limit `b`. `None` is unbounded.
pub open spec fn limit_covers(a: Option<usize>, b: Option<usize>) -> bool {
    a is None || (b is Some && a->0 >= b->0)
}

/// The smaller of the limits that cover both.
pub open spec fn larger_limit(a: Option<usize>, b: Option<usize>) -> Option<usize> {
    if limit_covers(a, b) {
        a
    } else {
        b
    }
}

/// The mode after a filter's mode is merged in.
pub open spec fn merged_mode(current: BodyMode, filter_mode: BodyMode) -> BodyMode {
    match (current, filter_mode) {
        (
            BodyMode::StreamBuffer { max_bytes: existing },
            BodyMode::StreamBuffer { max_bytes },
        ) => BodyMode::StreamBuffer { max_bytes: larger_limit(existing, max_bytes) },
        (_, BodyMode::StreamBuffer { .. }) => filter_mode,
        _ => current,
    }
}

/// Whether a mode collects the body and has room for the given limit.
pub open spec fn buffers_at_least(mode: BodyMode, limit: Option<usize>) -> bool {
    mode is StreamBuffer && limit_covers(mode->StreamBuffer_max_bytes, limit)
}

/// Merges two limits, keeping the larger; `None` is larger than any number.
pub fn merge_optional_limits(a: Option<usize>, b: Option<usize>) -> (merged: Option<usize>)
    ensures
        merged == larger_limit(a, b),
{
    match (a, b) {
        (Some(x), Some(y)) => if x >= y {
            Some(x)
        } else {
            Some(y)
        },
        _ => None,
    }
}

/// Merges a filter's mode into the mode so far. A `StreamBuffer` replaces any
/// other mode; of two, the larger limit wins; any other mode changes nothing.
pub fn merge_body_mode(current: &mut BodyMode, filter_mode: BodyMode)
    ensures
        *final(current) == merged_mode(*old(current), filter_mode),
{
    match filter_mode {
        BodyMode::StreamBuffer { max_bytes } => {
            *current = match *current {
                BodyMode::Stream => BodyMode::StreamBuffer { max_bytes },
                BodyMode::SizeLimit { .. } => BodyMode::StreamBuffer { max_bytes },
                BodyMode::StreamBuffer { max_bytes: existing } => BodyMode::StreamBuffer {
                    max_bytes: merge_optional_limits(existing, max_bytes),
                },
            };
        },
        BodyMode::SizeLimit { .. } => {},
        BodyMode::Stream => {},
    }
}

// ---------------------------------------------------------------------------
// Request-body phase
// ---------------------------------------------------------------------------

/// The one phase in which a filter's request-body hook runs.
#[derive(Debug, Clone, Copy, PartialEq, Eq, Structural)]
pub enum RequestBodyPhase {
    /// The filter has no request-body hook.
    NoHook,
    /// Before the request phase selects an upstream.
    PreRead,
    /// At the barrier, after the router binds a logical upstream.
    BoundUpstream,
}

/// Whether the filter is an HTTP filter that declares pre-read access.
pub open spec fn declares_pre_read(pf: PipelineFilter) -> bool {
    pf.filter matches AnyFilter::Http(f) && f.request_body_access != BodyAccess::NoAccess
}

/// Whether the filter is an HTTP filter that declares bound-upstream access.
pub open spec fn declares_bound(pf: PipelineFilter) -> bool {
    pf.filter matches AnyFilter::Http(f) && f.bound_upstream_request_body_access != BodyAccess::NoAccess
}

/// Whether the filter is an HTTP filter that declares selected-upstream access.
pub open spec fn declares_selected(pf: PipelineFilter) -> bool {
    pf.filter matches AnyFilter::Http(f) && f.selected_upstream_request_body_access != BodyAccess::NoAccess
}

/// Whether the filter is an HTTP filter that declares response-body access.
pub open spec fn declares_response(pf: PipelineFilter) -> bool {
    pf.filter matches AnyFilter::Http(f) && f.response_body_access != BodyAccess::NoAccess
}

/// Whether the filter is an HTTP filter that declares response-trailer access.
pub open spec fn declares_trailers(pf: PipelineFilter) -> bool {
    pf.filter matches AnyFilter::Http(f) && f.response_trailer_access
}

/// The phase of a filter's request-body hook. One that declares both accesses
/// waits for the barrier exactly when a condition asks for a bound upstream.
pub open spec fn request_phase(pf: PipelineFilter) -> RequestBodyPhase {
    if declares_bound(pf) && (declares_pre_read(pf) ==> pf.waits_for_binding()) {
        RequestBodyPhase::BoundUpstream
    } else if declares_pre_read(pf) {
        RequestBodyPhase::PreRead
    } else {
        RequestBodyPhase::NoHook
    }
}

/// Whether the filter declares bound-upstream request-body access.
pub fn participates_in_bound_upstream_body(filter: &HttpDeclarations) -> (participates: bool)
    ensures
        participates == (filter.bound_upstream_request_body_access != BodyAccess::NoAccess),
{
    filter.bound_upstream_request_body_access != BodyAccess::NoAccess
}

/// The one phase in which a filter's request-body hook runs.
pub fn effective_request_body_phase(pf: &PipelineFilter) -> (phase: RequestBodyPhase)
    ensures
        phase == request_phase(*pf),
{
    let filter = match &pf.filter {
        AnyFilter::Http(filter) => filter,
        AnyFilter::Tcp => {
            return RequestBodyPhase::NoHook;
        },
    };
    let pre_read = filter.request_body_access != BodyAccess::NoAccess;
    let bound = participates_in_bound_upstream_body(filter);
    match (pre_read, bound) {
        (false, false) => RequestBodyPhase::NoHook,
        (true, false) => RequestBodyPhase::PreRead,
        (false, true) => RequestBodyPhase::BoundUpstream,
        (true, true) => {
            if pf.has_bound_upstream_condition() {
                RequestBodyPhase::BoundUpstream
            } else {
                RequestBodyPhase::PreRead
            }
        },
    }
}

// ---------------------------------------------------------------------------
// Participating filters
// ---------------------------------------------------------------------------

/// Whether `indices` lists, in ascending order, exactly the places of the
/// filters that satisfy `chosen`.
pub open spec fn lists_places(
    indices: Seq<usize>,
    filters: Seq<PipelineFilter>,
    chosen: spec_fn(PipelineFilter) -> bool,
) -> bool {
    &&& forall|k: int|
        0 <= k < indices.len() ==> (#[trigger] indices[k]) < filters.len() && chosen(filters[indices[k] as int])
    &&& forall|i: usize| i < filters.len() && chosen(#[trigger] filters[i as int]) ==> indices.contains(i)
    &&& forall|k: int, l: int| 0 <= k < l < indices.len() ==> indices[k] < indices[l]
}

proof fn lemma_places_extend(
    before: Seq<usize>,
    after: Seq<usize>,
    filters: Seq<PipelineFilter>,
    chosen: spec_fn(PipelineFilter) -> bool,
    i: usize,
)
    requires
        i < filters.len(),
        lists_places(before, filters.take(i as int), chosen),
        after == (if chosen(filters[i as int]) {
            before.push(i)
        } else {
            before
        }),
    ensures
        lists_places(after, filters.take(i + 1), chosen),
{
    let shorter = filters.take(i as int);
    let longer = filters.take(i + 1);
    assert forall|k: int| 0 <= k < after.len() implies (#[trigger] after[k]) < longer.len() && chosen(
        longer[after[k] as int],
    ) by {
        if k < before.len() {
            assert(before[k] < shorter.len() && chosen(shorter[before[k] as int]));
        }
    }
    assert forall|j: usize| j < longer.len() && chosen(#[trigger] longer[j as int]) implies after.contains(j) by {
        if j < i {
            assert(chosen(shorter[j as int]));
            let k = choose|k: int| 0 <= k < before.len() && before[k] == j;
            assert(after[k] == j);
        } else {
            assert(after[after.len() - 1] == j);
        }
    }
    assert forall|k: int, l: int| 0 <= k < l < after.len() implies after[k] < after[l] by {
        assert(before[k] < shorter.len());
    }
}

/// The places of the filters whose request-body hook runs before an upstream is
/// selected, and of those that declare response-body access.
pub fn body_filter_indices(filters: &[PipelineFilter]) -> (indices: (Vec<usize>, Vec<usize>))
    ensures
        lists_places(
            indices.0@,
            filters@,
            |pf: PipelineFilter| request_phase(pf) == RequestBodyPhase::PreRead,
        ),
        lists_places(indices.1@, filters@, |pf: PipelineFilter| declares_response(pf)),
{
    let ghost pre_read = |pf: PipelineFilter| request_phase(pf) == RequestBodyPhase::PreRead;
    let ghost responds = |pf: PipelineFilter| declares_response(pf);
    let mut request: Vec<usize> = Vec::new();
    let mut response: Vec<usize> = Vec::new();
    for i in 0..filters.len()
        invariant
            pre_read == (|pf: PipelineFilter| request_phase(pf) == RequestBodyPhase::PreRead),
            responds == (|pf: PipelineFilter| declares_response(pf)),
            lists_places(request@, filters@.take(i as int), pre_read),
            lists_places(response@, filters@.take(i as int), responds),
    {
        let ghost request_before = request@;
        let ghost response_before = response@;
        let pf = &filters[i];
        if effective_request_body_phase(pf) == RequestBodyPhase::PreRead {
            request.push(i);
        }
        if let AnyFilter::Http(f) = &pf.filter {
            if f.response_body_access != BodyAccess::NoAccess {
                response.push(i);
            }
        }
        proof {
            lemma_places_extend(request_before, request@, filters@, pre_read, i);
            lemma_places_extend(response_before, response@, filters@, responds, i);
        }
    }
    assert(filters@.take(filters@.len() as int) =~= filters@);
    (request, response)
}

/// The places of the filters that declare selected-upstream request-body access.
pub fn selected_upstream_request_body_indices(filters: &[PipelineFilter]) -> (indices: Vec<usize>)
    ensures
        lists_places(indices@, filters@, |pf: PipelineFilter| declares_selected(pf)),
{
    let ghost chosen = |pf: PipelineFilter| declares_selected(pf);
    let mut indices: Vec<usize> = Vec::new();
    for i in 0..filters.len()
        invariant
            chosen == (|pf: PipelineFilter| declares_selected(pf)),
            lists_places(indices@, filters@.take(i as int), chosen),
    {
        let ghost before = indices@;
        if let AnyFilter::Http(f) = &filters[i].filter {
            if f.selected_upstream_request_body_access != BodyAccess::NoAccess {
                indices.push(i);
            }
        }
        proof {
            lemma_places_extend(before, indices@, filters@, chosen, i);
        }
    }
    assert(filters@.take(filters@.len() as int) =~= filters@);
    indices
}

/// The places of the filters whose request-body hook runs at the bound-upstream
/// barrier.
pub fn bound_upstream_request_body_indices(filters: &[PipelineFilter]) -> (indices: Vec<usize>)
    ensures
        lists_places(
            indices@,
            filters@,
            |pf: PipelineFilter| request_phase(pf) == RequestBodyPhase::BoundUpstream,
        ),
{
    let ghost chosen = |pf: PipelineFilter| request_phase(pf) == RequestBodyPhase::BoundUpstream;
    let mut indices: Vec<usize> = Vec::new();
    for i in 0..filters.len()
        invariant
            chosen == (|pf: PipelineFilter| request_phase(pf) == RequestBodyPhase::BoundUpstream),
            lists_places(indices@, filters@.take(i as int), chosen),
    {
        let ghost before = indices@;
        if effective_request_body_phase(&filters[i]) == RequestBodyPhase::BoundUpstream {
            indices.push(i);
        }
        proof {
            lemma_places_extend(before, indices@, filters@, chosen, i);
        }
    }
    assert(filters@.take(filters@.len() as int) =~= filters@);
    indices
}

/// The places of the filters that declare response-trailer access.
pub fn response_trailer_filter_indices(filters: &[PipelineFilter]) -> (indices: Vec<usize>)
    ensures
        lists_places(indices@, filters@, |pf: PipelineFilter| declares_trailers(pf)),
{
    let ghost chosen = |pf: PipelineFilter| declares_trailers(pf);
    let mut indices: Vec<usize> = Vec::new();
    for i in 0..filters.len()
        invariant
            chosen == (|pf: PipelineFilter| declares_trailers(pf)),
            lists_places(indices@, filters@.take(i as int), chosen),
    {
        let ghost before = indices@;
        if let AnyFilter::Http(f) = &filters[i].filter {
            if f.response_trailer_access {
                indices.push(i);
            }
        }
        proof {
            lemma_places_extend(before, indices@, filters@, chosen, i);
        }
    }
    assert(filters@.take(filters@.len() as int) =~= filters@);
    indices
}

// ---------------------------------------------------------------------------
// Body capabilities
// ---------------------------------------------------------------------------

/// Whether some filter satisfies `chosen`.
pub open spec fn some_filter(filters: Seq<PipelineFilter>, chosen: spec_fn(PipelineFilter) -> bool) -> bool {
    exists|i: int| 0 <= i < filters.len() && chosen(#[trigger] filters[i])
}

/// The mode in which a filter of a later request-body phase gets the body: a
/// bounded `StreamBuffer`, capped at the ceiling where it declares none.
pub open spec fn bounded_buffer(mode: BodyMode) -> BodyMode {
    match mode {
        BodyMode::StreamBuffer { max_bytes: Some(_) } => mode,
        _ => BodyMode::StreamBuffer { max_bytes: Some(ABSOLUTE_MAX_BODY_BYTES) },
    }
}

/// Whether the filter takes the request body, in any phase.
pub open spec fn takes_request_body(pf: PipelineFilter) -> bool {
    request_phase(pf) != RequestBodyPhase::NoHook || declares_selected(pf)
}

/// Whether the filter may replace the request body in the phase of its hook.
pub open spec fn hook_writes_request_body(pf: PipelineFilter) -> bool {
    pf.filter matches AnyFilter::Http(f) && match request_phase(pf) {
        RequestBodyPhase::PreRead => f.request_body_access == BodyAccess::ReadWrite,
        RequestBodyPhase::BoundUpstream => f.bound_upstream_request_body_access == BodyAccess::ReadWrite,
        RequestBodyPhase::NoHook => false,
    }
}

/// Whether the filter may replace the request body once an upstream is selected.
pub open spec fn writes_selected_request_body(pf: PipelineFilter) -> bool {
    pf.filter matches AnyFilter::Http(f) && f.selected_upstream_request_body_access == BodyAccess::ReadWrite
}

/// Whether the filter may replace the response body.
pub open spec fn writes_response_body(pf: PipelineFilter) -> bool {
    pf.filter matches AnyFilter::Http(f) && f.response_body_access == BodyAccess::ReadWrite
}

/// Whether some response condition looks at headers.
pub open spec fn conditions_use_headers(conditions: Seq<ResponseCondition>) -> bool {
    exists|i: int| 0 <= i < conditions.len() && (#[trigger] conditions[i]).asks().headers is Some
}

/// The request-body mode after a filter's contribution.
pub open spec fn request_mode_after(mode: BodyMode, pf: PipelineFilter) -> BodyMode {
    match pf.filter {
        AnyFilter::Http(f) => {
            let hooked = match request_phase(pf) {
                RequestBodyPhase::PreRead => merged_mode(mode, f.request_body_mode),
                RequestBodyPhase::BoundUpstream => merged_mode(mode, bounded_buffer(f.request_body_mode)),
                RequestBodyPhase::NoHook => mode,
            };
            if declares_selected(pf) {
                merged_mode(hooked, bounded_buffer(f.request_body_mode))
            } else {
                hooked
            }
        },
        AnyFilter::Tcp => mode,
    }
}

/// The response-body mode after a filter's contribution.
pub open spec fn response_mode_after(mode: BodyMode, pf: PipelineFilter) -> BodyMode {
    match pf.filter {
        AnyFilter::Http(f) => if declares_response(pf) {
            merged_mode(mode, f.response_body_mode)
        } else {
            mode
        },
        AnyFilter::Tcp => mode,
    }
}

/// The request-body mode after the contributions of all filters.
pub open spec fn request_mode_over(mode: BodyMode, filters: Seq<PipelineFilter>) -> BodyMode {
    filters.fold_left(mode, |so_far: BodyMode, pf: PipelineFilter| request_mode_after(so_far, pf))
}

/// The response-body mode after the contributions of all filters.
pub open spec fn response_mode_over(mode: BodyMode, filters: Seq<PipelineFilter>) -> BodyMode {
    filters.fold_left(mode, |so_far: BodyMode, pf: PipelineFilter| response_mode_after(so_far, pf))
}

/// Whether an HTTP filter, or one in its branches at any depth, needs the
/// request context.
pub open spec fn needs_context(pf: PipelineFilter) -> bool
    decreases pf,
{
    match pf.filter {
        AnyFilter::Http(f) => f.needs_request_context || exists|b: int, i: int|
            0 <= b < pf.branches@.len() && 0 <= i < pf.branches@[b].filters@.len() && needs_context(
                #[trigger] pf.branches@[b].filters@[i],
            ),
        AnyFilter::Tcp => false,
    }
}

/// The capabilities after those that `filters` ask for are added. Filters in a
/// branch run no body hook: of them only the request context counts.
pub open spec fn caps_with(before: BodyCapabilities, filters: Seq<PipelineFilter>, in_branch: bool) -> BodyCapabilities {
    if in_branch {
        BodyCapabilities {
            needs_request_context: before.needs_request_context || some_filter(
                filters,
                |pf: PipelineFilter| needs_context(pf),
            ),
            ..before
        }
    } else {
        BodyCapabilities {
            needs_request_body: before.needs_request_body || some_filter(
                filters,
                |pf: PipelineFilter| takes_request_body(pf),
            ),
            any_request_body_writer: before.any_request_body_writer || some_filter(
                filters,
                |pf: PipelineFilter| hook_writes_request_body(pf) || writes_selected_request_body(pf),
            ),
            request_body_mode: request_mode_over(before.request_body_mode, filters),
            needs_selected_upstream_request_body: before.needs_selected_upstream_request_body || some_filter(
                filters,
                |pf: PipelineFilter| declares_selected(pf),
            ),
            any_selected_upstream_request_body_writer: before.any_selected_upstream_request_body_writer
                || some_filter(filters, |pf: PipelineFilter| writes_selected_request_body(pf)),
            needs_response_body: before.needs_response_body || some_filter(
                filters,
                |pf: PipelineFilter| declares_response(pf),
            ),
            any_response_body_writer: before.any_response_body_writer || some_filter(
                filters,
                |pf: PipelineFilter| writes_response_body(pf),
            ),
            response_body_mode: response_mode_over(before.response_body_mode, filters),
            any_response_body_condition: before.any_response_body_condition || some_filter(
                filters,
                |pf: PipelineFilter| declares_response(pf) && pf.response_conditions@.len() > 0,
            ),
            any_response_condition_uses_headers: before.any_response_condition_uses_headers || some_filter(
                filters,
                |pf: PipelineFilter| pf.filter is Http && conditions_use_headers(pf.response_conditions@),
            ),
            needs_response_trailers: before.needs_response_trailers || some_filter(
                filters,
                |pf: PipelineFilter| declares_trailers(pf),
            ),
            needs_request_context: before.needs_request_context || some_filter(
                filters,
                |pf: PipelineFilter| needs_context(pf),
            ),
        }
    }
}

/// Whether some response condition looks at headers.
pub fn resp_conditions_use_headers(conditions: &[ResponseCondition]) -> (found: bool)
    ensures
        found == conditions_use_headers(conditions@),
{
    for i in 0..conditions.len()
        invariant
            forall|j: int| 0 <= j < i ==> (#[trigger] conditions@[j]).asks().headers is None,
    {
        let asked = match &conditions[i] {
            ResponseCondition::When(m) => m,
            ResponseCondition::Unless(m) => m,
        };
        if asked.headers.is_some() {
            assert(conditions@[i as int].asks().headers is Some);
            return true;
        }
    }
    false
}

/// The mode in which a filter of a later request-body phase gets the body. It
/// is always a bounded `StreamBuffer`: such a phase works on the complete body.
pub fn buffered_body_mode(filter: &HttpDeclarations) -> (mode: BodyMode)
    ensures
        mode == bounded_buffer(filter.request_body_mode),
        mode matches BodyMode::StreamBuffer { max_bytes: Some(_) },
{
    match filter.request_body_mode {
        BodyMode::StreamBuffer { max_bytes: Some(limit) } => BodyMode::StreamBuffer { max_bytes: Some(limit) },
        _ => BodyMode::StreamBuffer { max_bytes: Some(ABSOLUTE_MAX_BODY_BYTES) },
    }
}

/// The mode that a selected-upstream participant contributes.
pub fn selected_upstream_body_mode(filter: &HttpDeclarations) -> (mode: BodyMode)
    ensures
        mode == bounded_buffer(filter.request_body_mode),
        mode matches BodyMode::StreamBuffer { max_bytes: Some(_) },
{
    buffered_body_mode(filter)
}

/// Adds what a filter's pre-read hook asks for.
pub fn accumulate_request_body(caps: &mut BodyCapabilities, filter: &HttpDeclarations)
    ensures
        *final(caps) == (if filter.request_body_access == BodyAccess::NoAccess {
            *old(caps)
        } else {
            BodyCapabilities {
                needs_request_body: true,
                any_request_body_writer: old(caps).any_request_body_writer || filter.request_body_access
                    == BodyAccess::ReadWrite,
                request_body_mode: merged_mode(old(caps).request_body_mode, filter.request_body_mode),
                ..*old(caps)
            }
        }),
{
    let access = filter.request_body_access;
    if access != BodyAccess::NoAccess {
        caps.needs_request_body = true;
        if access == BodyAccess::ReadWrite {
            caps.any_request_body_writer = true;
        }
        merge_body_mode(&mut caps.request_body_mode, filter.request_body_mode);
    }
}

/// Adds what a filter's selected-upstream hook asks for. The hook works on the
/// buffered request body, so it counts for the request body as a whole too.
pub fn accumulate_selected_upstream_request_body(caps: &mut BodyCapabilities, filter: &HttpDeclarations)
    ensures
        *final(caps) == (if filter.selected_upstream_request_body_access == BodyAccess::NoAccess {
            *old(caps)
        } else {
            BodyCapabilities {
                needs_selected_upstream_request_body: true,
                needs_request_body: true,
                any_selected_upstream_request_body_writer: old(caps).any_selected_upstream_request_body_writer
                    || filter.selected_upstream_request_body_access == BodyAccess::ReadWrite,
                any_request_body_writer: old(caps).any_request_body_writer
                    || filter.selected_upstream_request_body_access == BodyAccess::ReadWrite,
                request_body_mode: merged_mode(
                    old(caps).request_body_mode,
                    bounded_buffer(filter.request_body_mode),
                ),
                ..*old(caps)
            }
        }),
{
    let access = filter.selected_upstream_request_body_access;
    if access == BodyAccess::NoAccess {
        return;
    }
    caps.needs_selected_upstream_request_body = true;
    caps.needs_request_body = true;
    if access == BodyAccess::ReadWrite {
        caps.any_selected_upstream_request_body_writer = true;
        caps.any_request_body_writer = true;
    }
    merge_body_mode(&mut caps.request_body_mode, selected_upstream_body_mode(filter));
}

/// Adds what a filter's hook at the bound-upstream barrier asks for.
pub fn accumulate_bound_upstream_request_body(caps: &mut BodyCapabilities, filter: &HttpDeclarations)
    ensures
        *final(caps) == (if filter.bound_upstream_request_body_access == BodyAccess::NoAccess {
            *old(caps)
        } else {
            BodyCapabilities {
                needs_request_body: true,
                any_request_body_writer: old(caps).any_request_body_writer
                    || filter.bound_upstream_request_body_access == BodyAccess::ReadWrite,
                request_body_mode: merged_mode(
                    old(caps).request_body_mode,
                    bounded_buffer(filter.request_body_mode),
                ),
                ..*old(caps)
            }
        }),
{
    let access = filter.bound_upstream_request_body_access;
    if access == BodyAccess::NoAccess {
        return;
    }
    caps.needs_request_body = true;
    if access == BodyAccess::ReadWrite {
        caps.any_request_body_writer = true;
    }
    merge_body_mode(&mut caps.request_body_mode, buffered_body_mode(filter));
}

/// Adds what a filter's response hooks ask for.
pub fn accumulate_response_body(
    caps: &mut BodyCapabilities,
    filter: &HttpDeclarations,
    response_conditions: &[ResponseCondition],
)
    ensures
        *final(caps) == ({
            let takes_body = filter.response_body_access != BodyAccess::NoAccess;
            BodyCapabilities {
                needs_response_body: old(caps).needs_response_body || takes_body,
                any_response_body_condition: old(caps).any_response_body_condition || (takes_body
                    && response_conditions@.len() > 0),
                any_response_body_writer: old(caps).any_response_body_writer || filter.response_body_access
                    == BodyAccess::ReadWrite,
                response_body_mode: if takes_body {
                    merged_mode(old(caps).response_body_mode, filter.response_body_mode)
                } else {
                    old(caps).response_body_mode
                },
                needs_response_trailers: old(caps).needs_response_trailers || filter.response_trailer_access,
                ..*old(caps)
            }
        }),
{
    let access = filter.response_body_access;
    if access != BodyAccess::NoAccess {
        caps.needs_response_body = true;
        if response_conditions.len() > 0 {
            caps.any_response_body_condition = true;
        }
        if access == BodyAccess::ReadWrite {
            caps.any_response_body_writer = true;
        }
        merge_body_mode(&mut caps.response_body_mode, filter.response_body_mode);
    }
    if filter.response_trailer_access {
        caps.needs_response_trailers = true;
    }
}

proof fn lemma_some_filter_extends(
    filters: Seq<PipelineFilter>,
    i: int,
    chosen: spec_fn(PipelineFilter) -> bool,
)
    requires
        0 <= i < filters.len(),
    ensures
        some_filter(filters.take(i + 1), chosen) == (some_filter(filters.take(i), chosen) || chosen(filters[i])),
{
    let shorter = filters.take(i);
    let longer = filters.take(i + 1);
    if some_filter(shorter, chosen) {
        let k = choose|k: int| 0 <= k < shorter.len() && chosen(#[trigger] shorter[k]);
        assert(chosen(longer[k]));
    }
    if chosen(filters[i]) {
        assert(chosen(longer[i]));
    }
    if some_filter(longer, chosen) && !chosen(filters[i]) {
        let k = choose|k: int| 0 <= k < longer.len() && chosen(#[trigger] longer[k]);
        assert(chosen(shorter[k]));
    }
}

/// What one filter adds.
spec fn caps_with_one(before: BodyCapabilities, pf: PipelineFilter, in_branch: bool) -> BodyCapabilities {
    if in_branch {
        BodyCapabilities { needs_request_context: before.needs_request_context || needs_context(pf), ..before }
    } else {
        BodyCapabilities {
            needs_request_body: before.needs_request_body || takes_request_body(pf),
            any_request_body_writer: before.any_request_body_writer || hook_writes_request_body(pf)
                || writes_selected_request_body(pf),
            request_body_mode: request_mode_after(before.request_body_mode, pf),
            needs_selected_upstream_request_body: before.needs_selected_upstream_request_body || declares_selected(
                pf,
            ),
            any_selected_upstream_request_body_writer: before.any_selected_upstream_request_body_writer
                || writes_selected_request_body(pf),
            needs_response_body: before.needs_response_body || declares_response(pf),
            any_response_body_writer: before.any_response_body_writer || writes_response_body(pf),
            response_body_mode: response_mode_after(before.response_body_mode, pf),
            any_response_body_condition: before.any_response_body_condition || (declares_response(pf)
                && pf.response_conditions@.len() > 0),
            any_response_condition_uses_headers: before.any_response_condition_uses_headers || (pf.filter is Http
                && conditions_use_headers(pf.response_conditions@)),
            needs_response_trailers: before.needs_response_trailers || declares_trailers(pf),
            needs_request_context: before.needs_request_context || needs_context(pf),
        }
    }
}

proof fn lemma_caps_extend(before: BodyCapabilities, filters: Seq<PipelineFilter>, i: int, in_branch: bool)
    requires
        0 <= i < filters.len(),
    ensures
        caps_with(before, filters.take(i + 1), in_branch) == caps_with_one(
            caps_with(before, filters.take(i), in_branch),
            filters[i],
            in_branch,
        ),
{
    let shorter = filters.take(i);
    assert forall|chosen: spec_fn(PipelineFilter) -> bool| #[trigger]
        some_filter(filters.take(i + 1), chosen) == (some_filter(shorter, chosen) || chosen(filters[i])) by {
        lemma_some_filter_extends(filters, i, chosen);
    }
    assert(filters.take(i + 1).drop_last() =~= shorter);
}

/// Adds what one filter asks for, without its branches.
fn accumulate_own_caps(caps: &mut BodyCapabilities, pf: &PipelineFilter, http_filter: &HttpDeclarations, in_branch: bool)
    requires
        pf.filter == AnyFilter::Http(*http_filter),
    ensures
        *final(caps) == (BodyCapabilities {
            needs_request_context: old(caps).needs_request_context || http_filter.needs_request_context,
            ..caps_with_one(*old(caps), *pf, in_branch)
        }),
{
    if !in_branch {
        match effective_request_body_phase(pf) {
            RequestBodyPhase::PreRead => accumulate_request_body(caps, http_filter),
            RequestBodyPhase::BoundUpstream => accumulate_bound_upstream_request_body(caps, http_filter),
            RequestBodyPhase::NoHook => {},
        }
        accumulate_selected_upstream_request_body(caps, http_filter);
        accumulate_response_body(caps, http_filter, pf.response_conditions.as_slice());
        if !caps.any_response_condition_uses_headers {
            caps.any_response_condition_uses_headers =
            resp_conditions_use_headers(pf.response_conditions.as_slice());
        }
    }
    if http_filter.needs_request_context {
        caps.needs_request_context = true;
    }
}

/// Adds what one filter and those in its branches ask for.
fn accumulate_filter(caps: &mut BodyCapabilities, pf: &PipelineFilter, in_branch: bool)
    ensures
        *final(caps) == caps_with_one(*old(caps), *pf, in_branch),
    decreases *pf,
{
    let http_filter = match &pf.filter {
        AnyFilter::Http(f) => f,
        AnyFilter::Tcp => {
            return;
        },
    };
    accumulate_own_caps(caps, pf, http_filter, in_branch);
    let ghost own = *caps;
    for b in 0..pf.branches.len()
        invariant
            *caps == (BodyCapabilities {
                needs_request_context: own.needs_request_context || exists|c: int, j: int|
                    0 <= c < b && 0 <= j < pf.branches@[c].filters@.len() && needs_context(
                        #[trigger] pf.branches@[c].filters@[j],
                    ),
                ..own
            }),
    {
        let branch = &pf.branches[b];
        let ghost so_far = *caps;
        assert(decreases_to!(*pf => pf.branches));
        assert(decreases_to!(pf.branches => pf.branches@[b as int]));
        assert(decreases_to!(pf.branches@[b as int] => pf.branches@[b as int].filters));
        accumulate_caps_inner(caps, branch.filters.as_slice(), true);
        let ghost in_this = |pf: PipelineFilter| needs_context(pf);
        proof {
            let inner = pf.branches@[b as int].filters@;
            if some_filter(inner, in_this) {
                let j = choose|j: int| 0 <= j < inner.len() && in_this(#[trigger] inner[j]);
                assert(needs_context(pf.branches@[b as int].filters@[j]));
            }
            if so_far.needs_request_context && !own.needs_request_context {
                let (c, j) = choose|c: int, j: int|
                    0 <= c < b && 0 <= j < pf.branches@[c].filters@.len() && needs_context(
                        #[trigger] pf.branches@[c].filters@[j],
                    );
                assert(needs_context(pf.branches@[c].filters@[j]));
            }
            assert forall|c: int, j: int|
                0 <= c < b + 1 && 0 <= j < pf.branches@[c].filters@.len() && needs_context(
                    #[trigger] pf.branches@[c].filters@[j],
                ) implies caps.needs_request_context by {
                if c == b {
                    assert(in_this(inner[j]));
                }
            }
        }
    }
}

/// Adds what the filters ask for, and those in their branches.
pub fn accumulate_caps_inner(caps: &mut BodyCapabilities, filters: &[PipelineFilter], in_branch: bool)
    ensures
        *final(caps) == caps_with(*old(caps), filters@, in_branch),
    decreases filters@,
{
    let ghost before = *caps;
    assert(filters@.take(0) =~= Seq::<PipelineFilter>::empty());
    assert(*caps == caps_with(before, filters@.take(0), in_branch));
    for i in 0..filters.len()
        invariant
            *caps == caps_with(before, filters@.take(i as int), in_branch),
    {
        proof {
            lemma_caps_extend(before, filters@, i as int, in_branch);
        }
        accumulate_filter(caps, &filters[i], in_branch);
    }
    assert(filters@.take(filters@.len() as int) =~= filters@);
}

/// Adds what the filters of a pipeline ask for.
pub fn accumulate_caps(caps: &mut BodyCapabilities, filters: &[PipelineFilter])
    ensures
        *final(caps) == caps_with(*old(caps), filters@, false),
{
    accumulate_caps_inner(caps, filters, false);
}

/// What the filters of a pipeline ask for.
pub fn compute_body_capabilities(filters: &[PipelineFilter]) -> (caps: BodyCapabilities)
    ensures
        caps == caps_with(crate::body::no_capabilities(), filters@, false),
{
    let mut caps: BodyCapabilities = BodyCapabilities::default();
    accumulate_caps(&mut caps, filters);
    caps
}

// ---------------------------------------------------------------------------
// Laws
// ---------------------------------------------------------------------------

/// Limits may be merged in any order and grouping, merging one with itself
/// changes nothing, and the merged limit covers both.
pub proof fn lemma_limits_merge_in_any_order(a: Option<usize>, b: Option<usize>, c: Option<usize>)
    ensures
        larger_limit(a, b) == larger_limit(b, a),
        larger_limit(larger_limit(a, b), c) == larger_limit(a, larger_limit(b, c)),
        larger_limit(a, a) == a,
        limit_covers(larger_limit(a, b), a),
        limit_covers(larger_limit(a, b), b),
        larger_limit(a, b) == a || larger_limit(a, b) == b,
{
}

/// Two filters' modes may be merged in either order.
pub proof fn lemma_modes_merge_in_any_order(mode: BodyMode, a: BodyMode, b: BodyMode)
    ensures
        merged_mode(merged_mode(mode, a), b) == merged_mode(merged_mode(mode, b), a),
{
}

/// Once a body is buffered up to a limit, merging in another mode keeps it so.
pub proof fn lemma_merging_keeps_the_buffer(mode: BodyMode, other: BodyMode, limit: Option<usize>)
    requires
        buffers_at_least(mode, limit),
    ensures
        buffers_at_least(merged_mode(mode, other), limit),
{
}

/// What a pipeline needs does not depend on the order of its filters.
pub proof fn lemma_capabilities_ignore_order(
    before: BodyCapabilities,
    filters: Seq<PipelineFilter>,
    reordered: Seq<PipelineFilter>,
    in_branch: bool,
)
    requires
        filters.to_multiset() == reordered.to_multiset(),
    ensures
        caps_with(before, filters, in_branch) == caps_with(before, reordered, in_branch),
{
    assert forall|chosen: spec_fn(PipelineFilter) -> bool| #[trigger]
        some_filter(filters, chosen) == some_filter(reordered, chosen) by {
        filters.to_multiset_ensures();
        reordered.to_multiset_ensures();
        if some_filter(filters, chosen) {
            let i = choose|i: int| 0 <= i < filters.len() && chosen(#[trigger] filters[i]);
            assert(filters.contains(filters[i]));
            assert(filters.to_multiset().count(filters[i]) > 0);
            assert(reordered.contains(filters[i]));
        }
        if some_filter(reordered, chosen) {
            let i = choose|i: int| 0 <= i < reordered.len() && chosen(#[trigger] reordered[i]);
            assert(reordered.contains(reordered[i]));
            assert(reordered.to_multiset().count(reordered[i]) > 0);
            assert(filters.contains(reordered[i]));
        }
    }
    let request = |so_far: BodyMode, pf: PipelineFilter| request_mode_after(so_far, pf);
    let response = |so_far: BodyMode, pf: PipelineFilter| response_mode_after(so_far, pf);
    vstd::seq_lib::lemma_fold_left_permutation(filters, reordered, request, before.request_body_mode);
    vstd::seq_lib::lemma_fold_left_permutation(filters, reordered, response, before.response_body_mode);
}

/// Adding the needs of two lists of filters one after the other is adding those
/// of both at once.
pub proof fn lemma_capabilities_add_up(
    before: BodyCapabilities,
    first: Seq<PipelineFilter>,
    second: Seq<PipelineFilter>,
    in_branch: bool,
)
    ensures
        caps_with(caps_with(before, first, in_branch), second, in_branch) == caps_with(
            before,
            first + second,
            in_branch,
        ),
    decreases second.len(),
{
    if second.len() == 0 {
        assert(first + second =~= first);
        assert(caps_with(caps_with(before, first, in_branch), second, in_branch) == caps_with(
            before,
            first,
            in_branch,
        ));
    } else {
        let n = second.len() - 1;
        let all = first + second;
        lemma_capabilities_add_up(before, first, second.drop_last(), in_branch);
        lemma_caps_extend(caps_with(before, first, in_branch), second, n, in_branch);
        lemma_caps_extend(before, all, first.len() + n, in_branch);
        assert(second.take(n) =~= second.drop_last());
        assert(second.take(n + 1) =~= second);
        assert(all.take(first.len() + n) =~= first + second.drop_last());
        assert(all.take(first.len() + n + 1) =~= all);
        assert(all[first.len() + n] == second[n]);
    }
}

/// The buffer that a filter's request-body hooks rely on, where they rely on
/// one.
pub open spec fn request_buffer_wanted(pf: PipelineFilter) -> Option<BodyMode> {
    match pf.filter {
        AnyFilter::Http(f) => if request_phase(pf) == RequestBodyPhase::PreRead && f.request_body_mode is StreamBuffer {
            Some(f.request_body_mode)
        } else if request_phase(pf) == RequestBodyPhase::BoundUpstream || declares_selected(pf) {
            Some(bounded_buffer(f.request_body_mode))
        } else {
            None
        },
        AnyFilter::Tcp => None,
    }
}

proof fn lemma_request_buffer_kept(
    mode: BodyMode,
    filters: Seq<PipelineFilter>,
    i: int,
)
    requires
        0 <= i < filters.len(),
        request_buffer_wanted(filters[i]) is Some,
    ensures
        buffers_at_least(
            request_mode_over(mode, filters),
            request_buffer_wanted(filters[i])->0->StreamBuffer_max_bytes,
        ),
    decreases filters.len(),
{
    if i < filters.len() - 1 {
        lemma_request_buffer_kept(mode, filters.drop_last(), i);
    }
}

proof fn lemma_response_buffer_kept(
    mode: BodyMode,
    filters: Seq<PipelineFilter>,
    i: int,
)
    requires
        0 <= i < filters.len(),
        declares_response(filters[i]),
        filters[i].filter->Http_0.response_body_mode is StreamBuffer,
    ensures
        buffers_at_least(
            response_mode_over(mode, filters),
            filters[i].filter->Http_0.response_body_mode->StreamBuffer_max_bytes,
        ),
    decreases filters.len(),
{
    if i < filters.len() - 1 {
        lemma_response_buffer_kept(mode, filters.drop_last(), i);
    }
}

/// Every filter that relies on a buffered body gets one, with room for all that
/// it asked for.
pub proof fn lemma_every_filter_gets_enough_buffer(
    before: BodyCapabilities,
    filters: Seq<PipelineFilter>,
    i: int,
)
    requires
        0 <= i < filters.len(),
    ensures
        request_buffer_wanted(filters[i]) matches Some(wanted) ==> buffers_at_least(
            caps_with(before, filters, false).request_body_mode,
            wanted->StreamBuffer_max_bytes,
        ),
        declares_response(filters[i]) && filters[i].filter->Http_0.response_body_mode is StreamBuffer
            ==> buffers_at_least(
            caps_with(before, filters, false).response_body_mode,
            filters[i].filter->Http_0.response_body_mode->StreamBuffer_max_bytes,
        ),
{
    if request_buffer_wanted(filters[i]) is Some {
        lemma_request_buffer_kept(before.request_body_mode, filters, i);
    }
    if declares_response(filters[i]) && filters[i].filter->Http_0.response_body_mode is StreamBuffer {
        lemma_response_buffer_kept(before.response_body_mode, filters, i);
    }
}

/// No more is buffered of a request than some filter asked for: without such a
/// filter the body streams, else the limit is that of one of them.
pub proof fn lemma_no_more_buffer_than_asked_for(filters: Seq<PipelineFilter>)
    ensures
        caps_with(crate::body::no_capabilities(), filters, false).request_body_mode == BodyMode::Stream || exists|
            i: int,
        |
            0 <= i < filters.len() && request_buffer_wanted(#[trigger] filters[i]) == Some(
                caps_with(crate::body::no_capabilities(), filters, false).request_body_mode,
            ),
    decreases filters.len(),
{
    if filters.len() > 0 {
        let shorter = filters.drop_last();
        lemma_no_more_buffer_than_asked_for(shorter);
        let mode = request_mode_over(BodyMode::Stream, filters);
        let earlier = request_mode_over(BodyMode::Stream, shorter);
        assert(mode == request_mode_after(earlier, filters.last()));
        if earlier != BodyMode::Stream {
            let i = choose|i: int|
                0 <= i < shorter.len() && request_buffer_wanted(#[trigger] shorter[i]) == Some(earlier);
            assert(filters[i] == shorter[i]);
        }
        let last = filters[filters.len() - 1];
        assert(mode == earlier || request_buffer_wanted(last) == Some(mode));
    }
}

/// A hook that is scheduled at all is scheduled in exactly one phase: the
/// pre-read places and the barrier places share nothing and together are the
/// places of the filters that declare either access.
pub proof fn lemma_hook_runs_in_exactly_one_phase(
    filters: Seq<PipelineFilter>,
    pre_read: Seq<usize>,
    bound: Seq<usize>,
    i: usize,
)
    requires
        lists_places(pre_read, filters, |pf: PipelineFilter| request_phase(pf) == RequestBodyPhase::PreRead),
        lists_places(bound, filters, |pf: PipelineFilter| request_phase(pf) == RequestBodyPhase::BoundUpstream),
        i < filters.len(),
    ensures
        !(pre_read.contains(i) && bound.contains(i)),
        (pre_read.contains(i) || bound.contains(i)) == (declares_pre_read(filters[i as int]) || declares_bound(
            filters[i as int],
        )),
{
    let early = |pf: PipelineFilter| request_phase(pf) == RequestBodyPhase::PreRead;
    let late = |pf: PipelineFilter| request_phase(pf) == RequestBodyPhase::BoundUpstream;
    if pre_read.contains(i) {
        let k = choose|k: int| 0 <= k < pre_read.len() && pre_read[k] == i;
        assert(early(filters[pre_read[k] as int]));
    }
    if bound.contains(i) {
        let k = choose|k: int| 0 <= k < bound.len() && bound[k] == i;
        assert(late(filters[bound[k] as int]));
    }
    assert(early(filters[i as int]) ==> pre_read.contains(i));
    assert(late(filters[i as int]) ==> bound.contains(i));
}

/// Where a filter declares no bound-upstream access, its hook runs pre-read or
/// not at all.
pub proof fn lemma_no_barrier_without_bound_declaration(pf: PipelineFilter)
    requires
        !declares_bound(pf),
    ensures
        request_phase(pf) == (if declares_pre_read(pf) {
            RequestBodyPhase::PreRead
        } else {
            RequestBodyPhase::NoHook
        }),
{
}

/// Filters in branches count for nothing but the request context: two pipelines
/// whose filters differ in their branches alone need the same of bodies.
pub proof fn lemma_branches_need_no_bodies(
    before: BodyCapabilities,
    filters: Seq<PipelineFilter>,
    others: Seq<PipelineFilter>,
)
    requires
        filters.len() == others.len(),
        forall|i: int|
            0 <= i < filters.len() ==> (#[trigger] filters[i]) == (PipelineFilter {
                branches: filters[i].branches,
                ..others[i]
            }),
    ensures
        caps_with(before, filters, false) == (BodyCapabilities {
            needs_request_context: caps_with(before, filters, false).needs_request_context,
            ..caps_with(before, others, false)
        }),
    decreases filters.len(),
{
    if filters.len() == 0 {
        assert(filters =~= others);
    } else {
        let n = filters.len() - 1;
        assert forall|i: int| 0 <= i < n implies (#[trigger] filters.drop_last()[i]) == (PipelineFilter {
            branches: filters.drop_last()[i].branches,
            ..others.drop_last()[i]
        }) by {
            assert(filters[i] == (PipelineFilter { branches: filters[i].branches, ..others[i] }));
        }
        lemma_branches_need_no_bodies(before, filters.drop_last(), others.drop_last());
        lemma_caps_extend(before, filters, n, false);
        lemma_caps_extend(before, others, n, false);
        assert(filters.take(n) =~= filters.drop_last() && filters.take(n + 1) =~= filters);
        assert(others.take(n) =~= others.drop_last() && others.take(n + 1) =~= others);
        assert(filters[n] == (PipelineFilter { branches: filters[n].branches, ..others[n] }));
        assert(filters[n].waits_for_binding() == others[n].waits_for_binding());
        assert(request_phase(filters[n]) == request_phase(others[n]));
    }
}

/// A filter whose hook runs at the bound-upstream barrier makes the pipeline
/// buffer the request body.
pub proof fn lemma_barrier_works_on_a_buffered_body(filters: Seq<PipelineFilter>, i: int)
    requires
        0 <= i < filters.len(),
        request_phase(filters[i]) == RequestBodyPhase::BoundUpstream,
    ensures
        caps_with(crate::body::no_capabilities(), filters, false).needs_request_body,
        caps_with(crate::body::no_capabilities(), filters, false).request_body_mode is StreamBuffer,
{
    assert(takes_request_body(filters[i]));
    lemma_every_filter_gets_enough_buffer(crate::body::no_capabilities(), filters, i);
}

/// A filter that takes part in the selected-upstream phase makes the pipeline
/// buffer the request body, and one that writes there counts as a writer of it.
pub proof fn lemma_selected_phase_counts_for_the_request_body(filters: Seq<PipelineFilter>)
    ensures
        ({
            let caps = caps_with(crate::body::no_capabilities(), filters, false);
            &&& caps.needs_selected_upstream_request_body ==> caps.needs_request_body && caps.request_body_mode is StreamBuffer
            &&& caps.any_selected_upstream_request_body_writer ==> caps.any_request_body_writer
                && caps.needs_selected_upstream_request_body
        }),
{
    let caps = caps_with(crate::body::no_capabilities(), filters, false);
    if caps.needs_selected_upstream_request_body {
        let i = choose|i: int| 0 <= i < filters.len() && declares_selected(#[trigger] filters[i]);
        assert(takes_request_body(filters[i]));
        lemma_every_filter_gets_enough_buffer(crate::body::no_capabilities(), filters, i);
    }
    if caps.any_selected_upstream_request_body_writer {
        let i = choose|i: int| 0 <= i < filters.len() && writes_selected_request_body(#[trigger] filters[i]);
        assert(hook_writes_request_body(filters[i]) || writes_selected_request_body(filters[i]));
        assert(declares_selected(filters[i]));
    }
}

/// Of two limits the larger is kept; where either is unbounded, so is the merged
/// one.
pub proof fn lemma_merged_limit_in_numbers(x: usize, y: usize, any: Option<usize>)
    ensures
        larger_limit(Some(x), Some(y)) matches Some(m) && m >= x && m >= y && (m == x || m == y),
        larger_limit(None, any) is None,
        larger_limit(any, None) is None,
{
}

/// Merging in a mode that does not buffer changes nothing; merging in a buffer
/// makes a buffer, whose limit is merged with that of an earlier buffer alone.
pub proof fn lemma_merged_mode_case_by_case(current: BodyMode, x: Option<usize>, y: Option<usize>, size: usize)
    ensures
        merged_mode(current, BodyMode::Stream) == current,
        merged_mode(current, (BodyMode::SizeLimit { max_bytes: size })) == current,
        merged_mode(BodyMode::Stream, (BodyMode::StreamBuffer { max_bytes: x })) == (BodyMode::StreamBuffer {
            max_bytes: x,
        }),
        merged_mode((BodyMode::SizeLimit { max_bytes: size }), (BodyMode::StreamBuffer { max_bytes: x })) == (
        BodyMode::StreamBuffer { max_bytes: x }),
        merged_mode((BodyMode::StreamBuffer { max_bytes: x }), (BodyMode::StreamBuffer { max_bytes: y })) matches BodyMode::StreamBuffer {
            max_bytes,
        } && match (x, y) {
            (Some(a), Some(b)) => max_bytes matches Some(m) && m >= a && m >= b && (m == a || m == b),
            _ => max_bytes is None,
        },
{
}

/// A later request-body phase keeps a bounded buffer as it is declared, and turns
/// every other declaration into a buffer of the ceiling.
pub proof fn lemma_later_phases_are_bounded(mode: BodyMode, limit: usize)
    ensures
        bounded_buffer((BodyMode::StreamBuffer { max_bytes: Some(limit) })) == (BodyMode::StreamBuffer {
            max_bytes: Some(limit),
        }),
        !(mode matches BodyMode::StreamBuffer { max_bytes: Some(_) }) ==> bounded_buffer(mode) == (
        BodyMode::StreamBuffer { max_bytes: Some(ABSOLUTE_MAX_BODY_BYTES) }),
{
}

/// The phase of a hook, from what the filter declares: a TCP filter, or one that
/// declares neither access, has none; one access decides by itself; of both, a
/// condition of either polarity on a bound upstream decides for the barrier,
/// wherever it stands among the conditions.
pub proof fn lemma_phase_follows_declarations(pf: PipelineFilter, k: int)
    ensures
        pf.filter is Tcp ==> request_phase(pf) == RequestBodyPhase::NoHook,
        pf.filter matches AnyFilter::Http(f) ==> {
            let pre_read = f.request_body_access == BodyAccess::ReadOnly || f.request_body_access
                == BodyAccess::ReadWrite;
            let bound = f.bound_upstream_request_body_access == BodyAccess::ReadOnly
                || f.bound_upstream_request_body_access == BodyAccess::ReadWrite;
            &&& !pre_read && !bound ==> request_phase(pf) == RequestBodyPhase::NoHook
            &&& pre_read && !bound ==> request_phase(pf) == RequestBodyPhase::PreRead
            &&& !pre_read && bound ==> request_phase(pf) == RequestBodyPhase::BoundUpstream
            &&& pre_read && bound && 0 <= k < pf.conditions@.len() && match pf.conditions@[k] {
                Condition::When(asked) => asked.bound_upstream is Some,
                Condition::Unless(asked) => asked.bound_upstream is Some,
            } ==> request_phase(pf) == RequestBodyPhase::BoundUpstream
            &&& pre_read && bound && (forall|j: int|
                0 <= j < pf.conditions@.len() ==> match #[trigger] pf.conditions@[j] {
                    Condition::When(asked) => asked.bound_upstream is None,
                    Condition::Unless(asked) => asked.bound_upstream is None,
                }) ==> request_phase(pf) == RequestBodyPhase::PreRead
        },
{
    if 0 <= k < pf.conditions@.len() {
        assert(pf.conditions@[k].asks().bound_upstream is Some ==> pf.waits_for_binding());
    }
}

/// A list of places holds the place of every filter that was to be chosen, of no
/// other, and each place once, in ascending order.
pub proof fn lemma_places_are_exact(
    indices: Seq<usize>,
    filters: Seq<PipelineFilter>,
    chosen: spec_fn(PipelineFilter) -> bool,
    i: usize,
)
    requires
        lists_places(indices, filters, chosen),
    ensures
        indices.contains(i) <==> i < filters.len() && chosen(filters[i as int]),
        forall|k: int, l: int| 0 <= k < l < indices.len() ==> indices[k] < indices[l],
{
    if indices.contains(i) {
        let k = choose|k: int| 0 <= k < indices.len() && indices[k] == i;
        assert(indices[k] < filters.len());
    }
}

/// Which accesses and trailers an HTTP filter declares is told by its
/// declarations, and a TCP filter declares none.
pub proof fn lemma_declarations_tell_access(pf: PipelineFilter)
    ensures
        declares_pre_read(pf) <==> (pf.filter matches AnyFilter::Http(f) && (f.request_body_access
            == BodyAccess::ReadOnly || f.request_body_access == BodyAccess::ReadWrite)),
        declares_bound(pf) <==> (pf.filter matches AnyFilter::Http(f) && (f.bound_upstream_request_body_access
            == BodyAccess::ReadOnly || f.bound_upstream_request_body_access == BodyAccess::ReadWrite)),
        declares_selected(pf) <==> (pf.filter matches AnyFilter::Http(f) && (f.selected_upstream_request_body_access
            == BodyAccess::ReadOnly || f.selected_upstream_request_body_access == BodyAccess::ReadWrite)),
        declares_response(pf) <==> (pf.filter matches AnyFilter::Http(f) && (f.response_body_access
            == BodyAccess::ReadOnly || f.response_body_access == BodyAccess::ReadWrite)),
        declares_trailers(pf) <==> (pf.filter matches AnyFilter::Http(f) && f.response_trailer_access),
{
}

/// A response condition of a filter counts wherever it stands: headers are looked
/// at exactly where some condition, of either polarity, asks for them.
pub proof fn lemma_every_response_condition_counts(conditions: Seq<ResponseCondition>, k: int)
    ensures
        0 <= k < conditions.len() && match conditions[k] {
            ResponseCondition::When(asked) => asked.headers is Some,
            ResponseCondition::Unless(asked) => asked.headers is Some,
        } ==> conditions_use_headers(conditions),
        (forall|j: int|
            0 <= j < conditions.len() ==> match #[trigger] conditions[j] {
                ResponseCondition::When(asked) => asked.headers is None,
                ResponseCondition::Unless(asked) => asked.headers is None,
            }) ==> !conditions_use_headers(conditions),
{
    if 0 <= k < conditions.len() {
        assert(conditions[k].asks().headers is Some ==> conditions_use_headers(conditions));
    }
}

/// Capabilities look at headers exactly where some response condition of some
/// top-level HTTP filter asks for them, at whatever place among its conditions.
pub proof fn lemma_header_conditions_are_all_seen(
    before: BodyCapabilities,
    filters: Seq<PipelineFilter>,
    i: int,
    k: int,
)
    ensures
        ({
            let seen = caps_with(before, filters, false).any_response_condition_uses_headers;
            &&& 0 <= i < filters.len() && filters[i].filter is Http && 0 <= k < filters[i].response_conditions@.len()
                && match filters[i].response_conditions@[k] {
                ResponseCondition::When(asked) => asked.headers is Some,
                ResponseCondition::Unless(asked) => asked.headers is Some,
            } ==> seen
            &&& before.any_response_condition_uses_headers ==> seen
            &&& !before.any_response_condition_uses_headers && (forall|j: int, l: int|
                0 <= j < filters.len() && filters[j].filter is Http && 0 <= l < filters[j].response_conditions@.len()
                    ==> match #[trigger] filters[j].response_conditions@[l] {
                    ResponseCondition::When(asked) => asked.headers is None,
                    ResponseCondition::Unless(asked) => asked.headers is None,
                }) ==> !seen
        }),
{
    let chosen = |pf: PipelineFilter| pf.filter is Http && conditions_use_headers(pf.response_conditions@);
    if 0 <= i < filters.len() {
        lemma_every_response_condition_counts(filters[i].response_conditions@, k);
        assert(chosen(filters[i]) ==> some_filter(filters, chosen));
    }
    if some_filter(filters, chosen) {
        let j = choose|j: int| 0 <= j < filters.len() && chosen(#[trigger] filters[j]);
        let conditions = filters[j].response_conditions@;
        let l = choose|l: int| 0 <= l < conditions.len() && (#[trigger] conditions[l]).asks().headers is Some;
        assert(filters[j].response_conditions@[l].asks().headers is Some);
    }
}

/// Each flag of the capabilities is set where it was set before or where some
/// top-level filter declares what it is about, at whatever place, and nowhere
/// else.
pub proof fn lemma_flags_say_what_filters_declare(before: BodyCapabilities, filters: Seq<PipelineFilter>)
    ensures
        ({
            let caps = caps_with(before, filters, false);
            &&& caps.needs_request_body <==> before.needs_request_body || exists|i: int|
                0 <= i < filters.len() && (#[trigger] filters[i]).filter is Http
                    && !(filters[i].filter->Http_0.request_body_access is NoAccess && filters[i].filter->Http_0.bound_upstream_request_body_access is NoAccess
                    && filters[i].filter->Http_0.selected_upstream_request_body_access is NoAccess)
            &&& caps.any_request_body_writer <==> before.any_request_body_writer || exists|i: int|
                0 <= i < filters.len() && (#[trigger] filters[i]).filter is Http && (
                filters[i].filter->Http_0.selected_upstream_request_body_access is ReadWrite || (filters[i].filter->Http_0.request_body_access is ReadWrite
                    && request_phase(filters[i]) is PreRead) || (filters[i].filter->Http_0.bound_upstream_request_body_access is ReadWrite
                    && request_phase(filters[i]) is BoundUpstream))
            &&& caps.needs_selected_upstream_request_body <==> before.needs_selected_upstream_request_body
                || exists|i: int|
                0 <= i < filters.len() && (#[trigger] filters[i]).filter is Http
                    && !(filters[i].filter->Http_0.selected_upstream_request_body_access is NoAccess)
            &&& caps.any_selected_upstream_request_body_writer <==> before.any_selected_upstream_request_body_writer
                || exists|i: int|
                0 <= i < filters.len() && (#[trigger] filters[i]).filter is Http
                    && filters[i].filter->Http_0.selected_upstream_request_body_access is ReadWrite
            &&& caps.needs_response_body <==> before.needs_response_body || exists|i: int|
                0 <= i < filters.len() && (#[trigger] filters[i]).filter is Http
                    && !(filters[i].filter->Http_0.response_body_access is NoAccess)
            &&& caps.any_response_body_writer <==> before.any_response_body_writer || exists|i: int|
                0 <= i < filters.len() && (#[trigger] filters[i]).filter is Http
                    && filters[i].filter->Http_0.response_body_access is ReadWrite
            &&& caps.any_response_body_condition <==> before.any_response_body_condition || exists|i: int|
                0 <= i < filters.len() && (#[trigger] filters[i]).filter is Http
                    && !(filters[i].filter->Http_0.response_body_access is NoAccess) && filters[i].response_conditions@.len() > 0
            &&& caps.needs_response_trailers <==> before.needs_response_trailers || exists|i: int|
                0 <= i < filters.len() && (#[trigger] filters[i]).filter is Http
                    && filters[i].filter->Http_0.response_trailer_access
            &&& caps.needs_request_context <==> before.needs_request_context || exists|i: int|
                0 <= i < filters.len() && needs_context(#[trigger] filters[i])
        }),
{
}

/// The request context is needed by an HTTP filter that declares so, or in whose
/// branches, whichever and at whatever depth, some filter needs it. A TCP filter
/// and what hangs off it need none.
pub proof fn lemma_context_is_needed_from_any_depth(pf: PipelineFilter, b: int, i: int)
    ensures
        pf.filter is Tcp ==> !needs_context(pf),
        pf.filter matches AnyFilter::Http(f) ==> {
            &&& f.needs_request_context ==> needs_context(pf)
            &&& 0 <= b < pf.branches@.len() && 0 <= i < pf.branches@[b].filters@.len() && needs_context(
                pf.branches@[b].filters@[i],
            ) ==> needs_context(pf)
            &&& !f.needs_request_context && (forall|c: int, j: int|
                0 <= c < pf.branches@.len() && 0 <= j < pf.branches@[c].filters@.len() ==> !needs_context(
                    #[trigger] pf.branches@[c].filters@[j],
                )) ==> !needs_context(pf)
        },
{
}

/// Of filters in a branch the request context alone is taken over.
pub proof fn lemma_branch_filters_add_context_alone(before: BodyCapabilities, filters: Seq<PipelineFilter>)
    ensures
        ({
            let caps = caps_with(before, filters, true);
            &&& caps == (BodyCapabilities { needs_request_context: caps.needs_request_context, ..before })
            &&& caps.needs_request_context <==> before.needs_request_context || exists|i: int|
                0 <= i < filters.len() && needs_context(#[trigger] filters[i])
        }),
{
}

/// The buffers in numbers. A pre-read filter that declares a buffer finds at
/// least its limit, and no limit where it declares none. A filter of a later
/// request-body phase finds at least its limit, or the ceiling where it declares
/// no bounded buffer. So does a filter that takes the response body and declares
/// a buffer of it.
pub proof fn lemma_buffers_in_numbers(before: BodyCapabilities, filters: Seq<PipelineFilter>, i: int)
    requires
        0 <= i < filters.len(),
    ensures
        filters[i].filter matches AnyFilter::Http(f) ==> {
            let caps = caps_with(before, filters, false);
            let later = request_phase(filters[i]) is BoundUpstream || !(
            f.selected_upstream_request_body_access is NoAccess);
            &&& request_phase(filters[i]) is PreRead ==> match f.request_body_mode {
                BodyMode::StreamBuffer { max_bytes: Some(n) } => caps.request_body_mode matches BodyMode::StreamBuffer {
                    max_bytes,
                } && (max_bytes matches Some(m) ==> m >= n),
                BodyMode::StreamBuffer { max_bytes: None } => caps.request_body_mode == (BodyMode::StreamBuffer {
                    max_bytes: None,
                }),
                _ => true,
            }
            &&& later ==> (caps.request_body_mode matches BodyMode::StreamBuffer { max_bytes } && (
            max_bytes matches Some(m) ==> m >= match f.request_body_mode {
                BodyMode::StreamBuffer { max_bytes: Some(n) } => n,
                _ => ABSOLUTE_MAX_BODY_BYTES,
            }))
            &&& !(f.response_body_access is NoAccess) ==> match f.response_body_mode {
                BodyMode::StreamBuffer { max_bytes: Some(n) } => caps.response_body_mode matches BodyMode::StreamBuffer {
                    max_bytes,
                } && (max_bytes matches Some(m) ==> m >= n),
                BodyMode::StreamBuffer { max_bytes: None } => caps.response_body_mode == (BodyMode::StreamBuffer {
                    max_bytes: None,
                }),
                _ => true,
            }
        },
{
    lemma_every_filter_gets_enough_buffer(before, filters, i);
}

/// Where the request body is not delivered as it was to be before, its limit is
/// one that some filter asked for: a pre-read filter by its own declaration, or
/// one of a later phase by its bounded declaration or, for want of one, the
/// ceiling.
pub proof fn lemma_request_buffer_is_asked_for(mode: BodyMode, filters: Seq<PipelineFilter>)
    ensures
        ({
            let merged = request_mode_over(mode, filters);
            merged == mode || merged is StreamBuffer && exists|i: int|
                0 <= i < filters.len() && (#[trigger] filters[i]).filter is Http && ((
                request_phase(filters[i]) is PreRead && filters[i].filter->Http_0.request_body_mode == merged) || ((request_phase(
                    filters[i],
                ) is BoundUpstream || !(filters[i].filter->Http_0.selected_upstream_request_body_access is NoAccess))
                    && merged->StreamBuffer_max_bytes == match filters[i].filter->Http_0.request_body_mode {
                    BodyMode::StreamBuffer { max_bytes: Some(n) } => Some(n),
                    _ => Some(ABSOLUTE_MAX_BODY_BYTES),
                }))
        }),
    decreases filters.len(),
{
    if filters.len() > 0 {
        let shorter = filters.drop_last();
        lemma_request_buffer_is_asked_for(mode, shorter);
        let merged = request_mode_over(mode, filters);
        let earlier = request_mode_over(mode, shorter);
        assert(merged == request_mode_after(earlier, filters.last()));
        if merged == earlier && merged != mode {
            let i = choose|i: int|
                0 <= i < shorter.len() && (#[trigger] shorter[i]).filter is Http && ((
                request_phase(shorter[i]) is PreRead && shorter[i].filter->Http_0.request_body_mode == merged) || ((request_phase(
                    shorter[i],
                ) is BoundUpstream || !(shorter[i].filter->Http_0.selected_upstream_request_body_access is NoAccess))
                    && merged->StreamBuffer_max_bytes == match shorter[i].filter->Http_0.request_body_mode {
                    BodyMode::StreamBuffer { max_bytes: Some(n) } => Some(n),
                    _ => Some(ABSOLUTE_MAX_BODY_BYTES),
                }));
            assert(filters[i] == shorter[i]);
        } else if merged != earlier {
            let last = filters[filters.len() - 1];
            assert(last.filter is Http);
        }
    }
}

/// Where the response body is not delivered as it was to be before, it is
/// delivered as some filter that takes it declares.
pub proof fn lemma_response_buffer_is_asked_for(mode: BodyMode, filters: Seq<PipelineFilter>)
    ensures
        ({
            let merged = response_mode_over(mode, filters);
            merged == mode || merged is StreamBuffer && exists|i: int|
                0 <= i < filters.len() && (#[trigger] filters[i]).filter is Http
                    && !(filters[i].filter->Http_0.response_body_access is NoAccess) && filters[i].filter->Http_0.response_body_mode == merged
        }),
    decreases filters.len(),
{
    if filters.len() > 0 {
        let shorter = filters.drop_last();
        lemma_response_buffer_is_asked_for(mode, shorter);
        let merged = response_mode_over(mode, filters);
        let earlier = response_mode_over(mode, shorter);
        assert(merged == response_mode_after(earlier, filters.last()));
        if merged == earlier && merged != mode {
            let i = choose|i: int|
                0 <= i < shorter.len() && (#[trigger] shorter[i]).filter is Http
                    && !(shorter[i].filter->Http_0.response_body_access is NoAccess) && shorter[i].filter->Http_0.response_body_mode == merged;
            assert(filters[i] == shorter[i]);
        } else if merged != earlier {
            let last = filters[filters.len() - 1];
            assert(last.filter is Http);
        }
    }
}

} // verus!
