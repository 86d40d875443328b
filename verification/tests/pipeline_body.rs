//! What pipelines need of message bodies.

use praxis_responses::body::{BodyAccess, BodyCapabilities, BodyMode, ABSOLUTE_MAX_BODY_BYTES};
use praxis_responses::pipeline::body::{
    accumulate_caps, body_filter_indices, bound_upstream_request_body_indices, buffered_body_mode,
    compute_body_capabilities, effective_request_body_phase, merge_body_mode, merge_optional_limits,
    participates_in_bound_upstream_body, resp_conditions_use_headers, response_trailer_filter_indices,
    selected_upstream_body_mode, selected_upstream_request_body_indices, RequestBodyPhase,
};
use praxis_responses::pipeline::filter::{
    AnyFilter, ApplicationMatch, Condition, ConditionMatch, HttpDeclarations, PipelineFilter, ResolvedBranch,
    ResponseCondition, ResponseConditionMatch,
};

// ---------------------------------------------------------------------------
// Filters
// ---------------------------------------------------------------------------

fn response_body_filter() -> HttpDeclarations {
    HttpDeclarations { response_body_access: BodyAccess::ReadOnly, ..HttpDeclarations::default() }
}

fn branch_body_filter() -> HttpDeclarations {
    HttpDeclarations {
        request_body_access: BodyAccess::ReadWrite,
        request_body_mode: BodyMode::StreamBuffer { max_bytes: Some(4096) },
        ..HttpDeclarations::default()
    }
}

fn context_filter() -> HttpDeclarations {
    HttpDeclarations { needs_request_context: true, ..HttpDeclarations::default() }
}

fn selected_upstream_cap(access: BodyAccess, mode: BodyMode) -> HttpDeclarations {
    HttpDeclarations {
        selected_upstream_request_body_access: access,
        request_body_mode: mode,
        ..HttpDeclarations::default()
    }
}

fn bound_upstream_cap(access: BodyAccess, mode: BodyMode) -> HttpDeclarations {
    HttpDeclarations {
        bound_upstream_request_body_access: access,
        request_body_mode: mode,
        ..HttpDeclarations::default()
    }
}

fn dual_phase_cap(pre_read: BodyAccess, bound: BodyAccess, mode: BodyMode) -> HttpDeclarations {
    HttpDeclarations {
        request_body_access: pre_read,
        bound_upstream_request_body_access: bound,
        request_body_mode: mode,
        ..HttpDeclarations::default()
    }
}

fn bound_upstream_condition() -> Condition {
    Condition::When(ConditionMatch {
        bound_upstream: Some(ApplicationMatch {
            application_protocol: None,
            application_provider: Some("openai".to_owned()),
        }),
    })
}

fn placed(filter: HttpDeclarations) -> PipelineFilter {
    PipelineFilter::new(0, AnyFilter::Http(filter), vec![], vec![])
}

// ---------------------------------------------------------------------------
// Scenarios
// ---------------------------------------------------------------------------

#[test]
fn merge_body_mode_stream_buffer_wins_over_stream() {
    let mut mode = BodyMode::Stream;
    merge_body_mode(&mut mode, BodyMode::StreamBuffer { max_bytes: Some(1024) });
    assert_eq!(
        mode,
        BodyMode::StreamBuffer { max_bytes: Some(1024) },
        "StreamBuffer should replace Stream"
    );
}

#[test]
fn merge_body_mode_stream_buffer_wins_over_size_limit() {
    let mut mode = BodyMode::SizeLimit { max_bytes: 4096 };
    merge_body_mode(&mut mode, BodyMode::StreamBuffer { max_bytes: Some(2048) });
    assert_eq!(
        mode,
        BodyMode::StreamBuffer { max_bytes: Some(2048) },
        "StreamBuffer should replace SizeLimit"
    );
}

#[test]
fn merge_body_mode_size_limit_is_noop() {
    let mut mode = BodyMode::Stream;
    merge_body_mode(&mut mode, BodyMode::SizeLimit { max_bytes: 4096 });
    assert_eq!(
        mode,
        BodyMode::Stream,
        "SizeLimit should not change Stream (treated as noop in merge)"
    );
}

#[test]
fn merge_body_mode_stream_buffer_merges_limits() {
    let mut mode = BodyMode::StreamBuffer { max_bytes: Some(2048) };
    merge_body_mode(&mut mode, BodyMode::StreamBuffer { max_bytes: Some(1024) });
    assert_eq!(
        mode,
        BodyMode::StreamBuffer { max_bytes: Some(2048) },
        "larger StreamBuffer limit should win"
    );
}

#[test]
fn merge_body_mode_stream_buffer_none_with_some() {
    let mut mode = BodyMode::StreamBuffer { max_bytes: None };
    merge_body_mode(&mut mode, BodyMode::StreamBuffer { max_bytes: Some(1024) });
    assert_eq!(
        mode,
        BodyMode::StreamBuffer { max_bytes: None },
        "None (unbounded) should win over Some"
    );
}

#[test]
fn merge_body_mode_stream_is_noop() {
    let mut mode = BodyMode::StreamBuffer { max_bytes: Some(1024) };
    merge_body_mode(&mut mode, BodyMode::Stream);
    assert_eq!(
        mode,
        BodyMode::StreamBuffer { max_bytes: Some(1024) },
        "Stream should not change existing mode"
    );
}

#[test]
fn merge_optional_limits_both_some_picks_larger() {
    assert_eq!(
        merge_optional_limits(Some(100), Some(50)),
        Some(100),
        "should pick larger of two Some values"
    );
}

#[test]
fn merge_optional_limits_one_none() {
    assert_eq!(
        merge_optional_limits(Some(100), None),
        None,
        "None (unbounded) should win over Some (left)"
    );
    assert_eq!(
        merge_optional_limits(None, Some(200)),
        None,
        "None (unbounded) should win over Some (right)"
    );
}

#[test]
fn merge_optional_limits_both_none() {
    assert_eq!(merge_optional_limits(None, None), None, "both None should yield None");
}

#[test]
fn resp_conditions_use_headers_true_when_headers_present() {
    let conds = vec![ResponseCondition::When(ResponseConditionMatch {
        status: None,
        headers: Some(vec![("x-key".to_owned(), "val".to_owned())]),
    })];
    assert!(
        resp_conditions_use_headers(&conds),
        "should return true when a condition has headers"
    );
}

#[test]
fn resp_conditions_use_headers_false_when_status_only() {
    let conds = vec![ResponseCondition::When(ResponseConditionMatch {
        status: Some(vec![200]),
        headers: None,
    })];
    assert!(
        !resp_conditions_use_headers(&conds),
        "should return false when conditions only use status"
    );
}

#[test]
fn resp_conditions_use_headers_false_when_empty() {
    assert!(
        !resp_conditions_use_headers(&[]),
        "should return false when no conditions"
    );
}

#[test]
fn resp_conditions_use_headers_unless_variant() {
    let conds = vec![ResponseCondition::Unless(ResponseConditionMatch {
        status: None,
        headers: Some(vec![("x-skip".to_owned(), "yes".to_owned())]),
    })];
    assert!(
        resp_conditions_use_headers(&conds),
        "should return true for Unless variant with headers"
    );
}

#[test]
fn body_caps_marks_response_body_conditions_for_status_only() {
    let conditions = vec![ResponseCondition::When(ResponseConditionMatch {
        status: Some(vec![200]),
        headers: None,
    })];
    let filter = PipelineFilter::new(0, AnyFilter::Http(response_body_filter()), vec![], conditions);
    let caps = compute_body_capabilities(&[filter]);

    assert!(
        caps.any_response_body_condition,
        "status-only response body conditions should require response header snapshots"
    );
    assert!(
        !caps.any_response_condition_uses_headers,
        "status-only conditions should not set the header-specific flag"
    );
}

#[test]
fn body_caps_ignore_branch_body_filters() {
    let branch_filter = PipelineFilter {
        filter_id: 100,
        branches: vec![],
        conditions: vec![],
        filter: AnyFilter::Http(branch_body_filter()),
        response_conditions: vec![],
    };
    let branch = ResolvedBranch {
        filters: vec![branch_filter],
        name: "body_branch".to_owned(),
    };
    let parent = PipelineFilter {
        filter_id: 0,
        branches: vec![branch],
        conditions: vec![],
        filter: AnyFilter::Http(HttpDeclarations::default()),
        response_conditions: vec![],
    };
    let caps = compute_body_capabilities(&[parent]);
    assert!(
        !caps.needs_request_body,
        "branch filters run no body hooks; their body access must not enable buffering"
    );
    assert!(
        !caps.any_request_body_writer,
        "ReadWrite filter in branch must not set writer flag"
    );
    assert_eq!(
        caps.request_body_mode,
        BodyMode::Stream,
        "StreamBuffer mode from branch filter must not propagate"
    );
}

#[test]
fn body_caps_branch_filters_still_accumulate_request_context() {
    let branch = ResolvedBranch {
        filters: vec![PipelineFilter::new(
            100,
            AnyFilter::Http(context_filter()),
            vec![],
            vec![],
        )],
        name: "context_branch".to_owned(),
    };
    let parent = PipelineFilter {
        filter_id: 0,
        branches: vec![branch],
        conditions: vec![],
        filter: AnyFilter::Http(HttpDeclarations::default()),
        response_conditions: vec![],
    };
    let caps = compute_body_capabilities(&[parent]);
    assert!(
        caps.needs_request_context,
        "branch filters run on_request, so request-context needs must accumulate"
    );
}

#[test]
fn body_caps_no_branch_body_filters_has_no_effect() {
    let branch = ResolvedBranch {
        filters: vec![PipelineFilter::new(
            100,
            AnyFilter::Http(HttpDeclarations::default()),
            vec![],
            vec![],
        )],
        name: "noop_branch".to_owned(),
    };
    let parent = PipelineFilter {
        filter_id: 0,
        branches: vec![branch],
        conditions: vec![],
        filter: AnyFilter::Http(HttpDeclarations::default()),
        response_conditions: vec![],
    };
    let caps = compute_body_capabilities(&[parent]);
    assert!(
        !caps.needs_request_body,
        "branch without body filters should not enable request body"
    );
}

#[test]
fn body_caps_selected_upstream_read_write_participation() {
    let filter = PipelineFilter::new(
        0,
        AnyFilter::Http(selected_upstream_cap(BodyAccess::ReadWrite, BodyMode::StreamBuffer { max_bytes: Some(4096) })),
        vec![],
        vec![],
    );
    let caps = compute_body_capabilities(&[filter]);

    assert!(
        caps.needs_selected_upstream_request_body,
        "selected participant should set needs_selected_upstream_request_body"
    );
    assert!(
        caps.needs_request_body,
        "selected participant must contribute to the global request-body need"
    );
    assert!(
        caps.any_selected_upstream_request_body_writer,
        "ReadWrite selected participant should set the selected writer flag"
    );
    assert!(
        caps.any_request_body_writer,
        "ReadWrite selected participant must contribute to the global writer flag"
    );
    assert_eq!(
        caps.request_body_mode,
        BodyMode::StreamBuffer { max_bytes: Some(4096) },
        "selected participant's bounded StreamBuffer should drive the effective mode"
    );
}

#[test]
fn body_caps_selected_upstream_read_only_is_not_writer() {
    let filter = PipelineFilter::new(
        0,
        AnyFilter::Http(selected_upstream_cap(BodyAccess::ReadOnly, BodyMode::StreamBuffer { max_bytes: Some(2048) })),
        vec![],
        vec![],
    );
    let caps = compute_body_capabilities(&[filter]);

    assert!(
        caps.needs_selected_upstream_request_body,
        "read-only selected participant should still need the phase"
    );
    assert!(
        caps.needs_request_body,
        "read-only selected participant needs request body"
    );
    assert!(
        !caps.any_selected_upstream_request_body_writer,
        "read-only selected participant must not set the selected writer flag"
    );
    assert!(
        !caps.any_request_body_writer,
        "read-only selected participant must not set the global writer flag"
    );
}

#[test]
fn body_caps_selected_upstream_defensive_ceiling() {
    let filter = PipelineFilter::new(
        0,
        AnyFilter::Http(selected_upstream_cap(BodyAccess::ReadOnly, BodyMode::Stream)),
        vec![],
        vec![],
    );
    let caps = compute_body_capabilities(&[filter]);

    assert_eq!(
        caps.request_body_mode,
        BodyMode::StreamBuffer {
            max_bytes: Some(ABSOLUTE_MAX_BODY_BYTES),
        },
        "a non-bounded selected participant must fall back to the finite absolute ceiling"
    );
}

#[test]
fn body_caps_ignore_branch_selected_upstream_filters() {
    let branch = ResolvedBranch {
        filters: vec![PipelineFilter::new(
            100,
            AnyFilter::Http(selected_upstream_cap(BodyAccess::ReadWrite, BodyMode::StreamBuffer { max_bytes: Some(4096) })),
            vec![],
            vec![],
        )],
        name: "selected_branch".to_owned(),
    };
    let parent = PipelineFilter {
        filter_id: 0,
        branches: vec![branch],
        conditions: vec![],
        filter: AnyFilter::Http(HttpDeclarations::default()),
        response_conditions: vec![],
    };
    let caps = compute_body_capabilities(&[parent]);

    assert!(
        !caps.needs_selected_upstream_request_body,
        "selected participant inside a branch must not enable the phase"
    );
    assert!(
        !caps.needs_request_body,
        "branch selected participant must not enable request buffering"
    );
    assert_eq!(
        caps.request_body_mode,
        BodyMode::Stream,
        "StreamBuffer mode from a branch selected participant must not propagate"
    );
}

#[test]
fn body_caps_bound_upstream_read_write_participation() {
    let filter = PipelineFilter::new(
        0,
        AnyFilter::Http(bound_upstream_cap(BodyAccess::ReadWrite, BodyMode::StreamBuffer { max_bytes: Some(4096) })),
        vec![],
        vec![],
    );
    let caps = compute_body_capabilities(&[filter]);

    assert!(
        caps.needs_request_body,
        "bound participant must contribute to the global request-body need"
    );
    assert!(
        caps.any_request_body_writer,
        "ReadWrite bound participant must contribute to the global writer flag"
    );
    assert_eq!(
        caps.request_body_mode,
        BodyMode::StreamBuffer { max_bytes: Some(4096) },
        "bound participant's bounded StreamBuffer should drive the effective mode"
    );
}

#[test]
fn body_caps_bound_upstream_read_only_is_not_writer() {
    let filter = PipelineFilter::new(
        0,
        AnyFilter::Http(bound_upstream_cap(BodyAccess::ReadOnly, BodyMode::StreamBuffer { max_bytes: Some(2048) })),
        vec![],
        vec![],
    );
    let caps = compute_body_capabilities(&[filter]);

    assert!(
        caps.needs_request_body,
        "read-only bound participant needs request body"
    );
    assert!(
        !caps.any_request_body_writer,
        "read-only bound participant must not set the global writer flag"
    );
}

#[test]
fn body_caps_bound_upstream_defensive_ceiling() {
    let filter = PipelineFilter::new(
        0,
        AnyFilter::Http(bound_upstream_cap(BodyAccess::ReadOnly, BodyMode::Stream)),
        vec![],
        vec![],
    );
    let caps = compute_body_capabilities(&[filter]);

    assert_eq!(
        caps.request_body_mode,
        BodyMode::StreamBuffer {
            max_bytes: Some(ABSOLUTE_MAX_BODY_BYTES),
        },
        "a non-bounded bound participant must fall back to the finite absolute ceiling"
    );
}

#[test]
fn body_caps_ignore_branch_bound_upstream_filters() {
    let branch = ResolvedBranch {
        filters: vec![PipelineFilter::new(
            100,
            AnyFilter::Http(bound_upstream_cap(BodyAccess::ReadWrite, BodyMode::StreamBuffer { max_bytes: Some(4096) })),
            vec![],
            vec![],
        )],
        name: "bound_branch".to_owned(),
    };
    let parent = PipelineFilter {
        filter_id: 0,
        branches: vec![branch],
        conditions: vec![],
        filter: AnyFilter::Http(HttpDeclarations::default()),
        response_conditions: vec![],
    };
    let caps = compute_body_capabilities(&[parent]);

    assert!(
        !caps.any_request_body_writer,
        "a branch read-write participant must not mark the request body as written"
    );
    assert!(
        !caps.needs_request_body,
        "branch bound participant must not enable request buffering"
    );
    assert_eq!(
        caps.request_body_mode,
        BodyMode::Stream,
        "StreamBuffer mode from a branch bound participant must not propagate"
    );
}

#[test]
fn bound_upstream_request_body_indices_top_level_only() {
    let participant = PipelineFilter::new(
        0,
        AnyFilter::Http(bound_upstream_cap(BodyAccess::ReadWrite, BodyMode::StreamBuffer { max_bytes: Some(4096) })),
        vec![],
        vec![],
    );
    let plain = PipelineFilter::new(1, AnyFilter::Http(HttpDeclarations::default()), vec![], vec![]);
    let indices = bound_upstream_request_body_indices(&[participant, plain]);
    assert_eq!(indices, vec![0], "only the declaring filter's index is collected");
}

#[test]
fn dual_phase_without_bound_condition_runs_pre_read() {
    let pf = PipelineFilter::new(
        0,
        AnyFilter::Http(dual_phase_cap(BodyAccess::ReadOnly, BodyAccess::ReadOnly, BodyMode::StreamBuffer { max_bytes: Some(4096) })),
        vec![],
        vec![],
    );
    assert_eq!(
        effective_request_body_phase(&pf),
        RequestBodyPhase::PreRead,
        "a dual-access filter with no bound_upstream condition runs pre-read"
    );
    let filters = vec![pf];
    let (request, _response) = body_filter_indices(&filters);
    assert_eq!(request, vec![0], "it is scheduled in the pre-read set");
    assert!(
        bound_upstream_request_body_indices(&filters).is_empty(),
        "it is not scheduled at the binding barrier"
    );
}

#[test]
fn dual_phase_with_bound_condition_runs_at_barrier() {
    let pf = PipelineFilter::new(
        0,
        AnyFilter::Http(dual_phase_cap(BodyAccess::ReadOnly, BodyAccess::ReadOnly, BodyMode::StreamBuffer { max_bytes: Some(4096) })),
        vec![bound_upstream_condition()],
        vec![],
    );
    assert_eq!(
        effective_request_body_phase(&pf),
        RequestBodyPhase::BoundUpstream,
        "a bound_upstream condition defers a dual-access hook to the barrier"
    );
    let filters = vec![pf];
    let (request, _response) = body_filter_indices(&filters);
    assert!(request.is_empty(), "it is excluded from the pre-read set");
    assert_eq!(
        bound_upstream_request_body_indices(&filters),
        vec![0],
        "it is scheduled at the binding barrier"
    );
}

#[test]
fn dual_phase_hook_scheduled_in_exactly_one_phase() {
    for conditions in [vec![], vec![bound_upstream_condition()]] {
        let filters = vec![PipelineFilter::new(
            0,
            AnyFilter::Http(dual_phase_cap(BodyAccess::ReadWrite, BodyAccess::ReadWrite, BodyMode::StreamBuffer { max_bytes: Some(4096) })),
            conditions,
            vec![],
        )];
        let (request, _response) = body_filter_indices(&filters);
        let bound = bound_upstream_request_body_indices(&filters);
        assert_eq!(
            request.len() + bound.len(),
            1,
            "a dual-access hook is scheduled exactly once, never twice"
        );
        assert!(
            request.is_empty() != bound.is_empty(),
            "the hook lands in exactly one phase, never both or neither"
        );
    }
}

#[test]
fn dual_phase_capabilities_follow_selected_phase() {
    // Pre-read ReadOnly, bound-upstream ReadWrite: the writer flag depends
    // entirely on which phase the single hook is scheduled in.
    let pre_read = PipelineFilter::new(
        0,
        AnyFilter::Http(dual_phase_cap(BodyAccess::ReadOnly, BodyAccess::ReadWrite, BodyMode::StreamBuffer { max_bytes: Some(4096) })),
        vec![],
        vec![],
    );
    let caps = compute_body_capabilities(&[pre_read]);
    assert!(
        caps.needs_request_body,
        "the pre-read phase still needs the request body"
    );
    assert!(
        !caps.any_request_body_writer,
        "the pre-read phase declares ReadOnly, so nothing writes the body"
    );

    let bound = PipelineFilter::new(
        0,
        AnyFilter::Http(dual_phase_cap(BodyAccess::ReadOnly, BodyAccess::ReadWrite, BodyMode::StreamBuffer { max_bytes: Some(4096) })),
        vec![bound_upstream_condition()],
        vec![],
    );
    let caps = compute_body_capabilities(&[bound]);
    assert!(caps.needs_request_body, "the bound phase still needs the request body");
    assert!(
        caps.any_request_body_writer,
        "the bound phase declares ReadWrite, so capability calc must mark the body as written"
    );
}

// ---------------------------------------------------------------------------
// Laws on values
// ---------------------------------------------------------------------------

#[test]
fn limits_merge_the_same_in_any_order() {
    for (a, b, c) in [(Some(1), Some(5), Some(3)), (None, Some(2), Some(9)), (Some(4), Some(4), None)] {
        assert_eq!(merge_optional_limits(a, b), merge_optional_limits(b, a));
        assert_eq!(
            merge_optional_limits(merge_optional_limits(a, b), c),
            merge_optional_limits(a, merge_optional_limits(b, c))
        );
        assert_eq!(merge_optional_limits(a, a), a);
    }
}

fn mixed_filters() -> Vec<PipelineFilter> {
    vec![
        placed(branch_body_filter()),
        placed(response_body_filter()),
        placed(selected_upstream_cap(BodyAccess::ReadOnly, BodyMode::StreamBuffer { max_bytes: Some(9000) })),
        PipelineFilter::new(3, AnyFilter::Tcp, vec![], vec![]),
        placed(context_filter()),
    ]
}

#[test]
fn capabilities_do_not_depend_on_filter_order() {
    let forward = compute_body_capabilities(&mixed_filters());
    let mut reversed = mixed_filters();
    reversed.reverse();
    assert_eq!(compute_body_capabilities(&reversed), forward);
    assert_eq!(forward.request_body_mode, BodyMode::StreamBuffer { max_bytes: Some(9000) });
    assert!(forward.any_request_body_writer);
    assert!(!forward.any_selected_upstream_request_body_writer);
    assert!(forward.needs_response_body);
    assert!(!forward.any_response_body_writer);
    assert!(forward.needs_request_context);
}

#[test]
fn capabilities_of_two_lists_add_up() {
    let mut step_by_step = BodyCapabilities::default();
    let all = mixed_filters();
    accumulate_caps(&mut step_by_step, &all[..2]);
    accumulate_caps(&mut step_by_step, &all[2..]);
    assert_eq!(step_by_step, compute_body_capabilities(&all));
}

#[test]
fn no_filters_need_nothing() {
    let caps = compute_body_capabilities(&[]);
    assert_eq!(caps, BodyCapabilities::default());
    assert_eq!(caps.request_body_mode, BodyMode::Stream);
    assert_eq!(caps.response_body_mode, BodyMode::Stream);
}

#[test]
fn tcp_filters_count_for_nothing() {
    let mut tcp = PipelineFilter::new(
        0,
        AnyFilter::Tcp,
        vec![],
        vec![ResponseCondition::When(ResponseConditionMatch { status: None, headers: Some(vec![]) })],
    );
    tcp.branches.push(ResolvedBranch { name: "b".to_owned(), filters: vec![placed(context_filter())] });
    assert_eq!(effective_request_body_phase(&tcp), RequestBodyPhase::NoHook);
    let caps = compute_body_capabilities(&[tcp]);
    assert_eq!(caps, BodyCapabilities::default());
}

#[test]
fn response_declarations_are_merged() {
    let filters = vec![
        placed(HttpDeclarations {
            response_body_access: BodyAccess::ReadWrite,
            response_body_mode: BodyMode::StreamBuffer { max_bytes: Some(10) },
            ..HttpDeclarations::default()
        }),
        placed(HttpDeclarations {
            response_body_access: BodyAccess::ReadOnly,
            response_body_mode: BodyMode::StreamBuffer { max_bytes: None },
            response_trailer_access: true,
            ..HttpDeclarations::default()
        }),
    ];
    let caps = compute_body_capabilities(&filters);
    assert!(caps.any_response_body_writer);
    assert!(caps.needs_response_trailers);
    assert!(!caps.any_response_body_condition);
    assert_eq!(caps.response_body_mode, BodyMode::StreamBuffer { max_bytes: None });
    assert_eq!(response_trailer_filter_indices(&filters), vec![1]);
    assert_eq!(body_filter_indices(&filters), (vec![], vec![0, 1]));
}

#[test]
fn header_conditions_count_without_response_body_access() {
    let filter = PipelineFilter::new(
        0,
        AnyFilter::Http(HttpDeclarations::default()),
        vec![],
        vec![ResponseCondition::When(ResponseConditionMatch { status: None, headers: Some(vec![]) })],
    );
    let caps = compute_body_capabilities(&[filter]);
    assert!(caps.any_response_condition_uses_headers);
    assert!(!caps.any_response_body_condition);
}

#[test]
fn selected_filters_are_listed_by_place() {
    let filters = vec![
        placed(HttpDeclarations::default()),
        placed(selected_upstream_cap(BodyAccess::ReadOnly, BodyMode::Stream)),
        placed(selected_upstream_cap(BodyAccess::ReadWrite, BodyMode::Stream)),
    ];
    assert_eq!(selected_upstream_request_body_indices(&filters), vec![1, 2]);
}

#[test]
fn unbounded_declarations_get_the_ceiling() {
    let unbounded = selected_upstream_cap(BodyAccess::ReadOnly, BodyMode::StreamBuffer { max_bytes: None });
    let ceiling = BodyMode::StreamBuffer { max_bytes: Some(ABSOLUTE_MAX_BODY_BYTES) };
    assert_eq!(buffered_body_mode(&unbounded), ceiling);
    assert_eq!(selected_upstream_body_mode(&unbounded), ceiling);
    let limited = selected_upstream_cap(BodyAccess::ReadOnly, BodyMode::SizeLimit { max_bytes: 5 });
    assert_eq!(buffered_body_mode(&limited), ceiling);
}

#[test]
fn barrier_participation_follows_the_declaration() {
    assert!(participates_in_bound_upstream_body(&bound_upstream_cap(BodyAccess::ReadOnly, BodyMode::Stream)));
    assert!(!participates_in_bound_upstream_body(&branch_body_filter()));
    assert_eq!(effective_request_body_phase(&placed(branch_body_filter())), RequestBodyPhase::PreRead);
    assert_eq!(effective_request_body_phase(&placed(context_filter())), RequestBodyPhase::NoHook);
}

#[test]
fn context_needs_count_from_nested_branches() {
    let mut inner = placed(HttpDeclarations::default());
    inner.branches.push(ResolvedBranch { name: "deep".to_owned(), filters: vec![placed(context_filter())] });
    let mut outer = placed(HttpDeclarations::default());
    outer.branches.push(ResolvedBranch { name: "shallow".to_owned(), filters: vec![inner] });
    let caps = compute_body_capabilities(&[outer]);
    assert!(caps.needs_request_context);
    assert!(!caps.needs_request_body);
}
