use tracing_datadog_apm::{
    extract_trace_and_parent, make_traces, ContextStack, ServiceName, SpanBuilder, SpanType,
    TracingSubscriberDatadog, TracingSubscriberDatadogConfig,
};

fn engine_with(name: &str, service: &str, kind: SpanType) -> TracingSubscriberDatadog {
    let config = TracingSubscriberDatadogConfig::new().add_mapping(
        tracing_datadog_apm::SpanName(name.to_string()),
        (ServiceName(service.to_string()), kind),
    );
    TracingSubscriberDatadog::new(
        config,
        "test-env".to_string(),
        "test-service".to_string(),
        "1.2.3".to_string(),
    )
}

#[test]
fn start_returns_nonzero_and_fresh_ids() {
    let mut engine = engine_with("checkout", "shop", SpanType::Db);
    let ctx = ContextStack::new();
    let first = engine.new_span(&ctx, "checkout");
    let second = engine.new_span(&ctx, "checkout");
    assert_ne!(first, 0);
    assert_ne!(second, 0);
    assert_ne!(first, second);
    assert!(engine.try_close(first));
    assert!(engine.try_close(second));
    let exported = engine.take_exports();
    assert_eq!(exported.len(), 2);
    assert_ne!(exported[0].span_id, exported[1].span_id);
    assert_ne!(exported[0].trace_id, exported[1].trace_id);
}

#[test]
fn n_references_need_n_closes() {
    let mut engine = engine_with("checkout", "shop", SpanType::Db);
    let ctx = ContextStack::new();
    let id = engine.new_span(&ctx, "checkout");
    assert_eq!(engine.clone_span(id), id);
    assert_eq!(engine.clone_span(id), id);
    // three owners: the close finalizes only on the third call
    assert!(!engine.try_close(id));
    assert!(!engine.try_close(id));
    assert_eq!(engine.take_exports().len(), 0);
    assert!(engine.try_close(id));
    assert_eq!(engine.take_exports().len(), 1);
    // the identifier is gone: closing again is a fault and a no-op
    let faults = engine.fault_count();
    assert!(!engine.try_close(id));
    assert_eq!(engine.fault_count(), faults + 1);
    assert_eq!(engine.take_exports().len(), 0);
    assert_eq!(engine.fault_count(), faults + 1);
}

#[test]
fn finalized_duration_is_now_minus_start() {
    let mut engine = engine_with("checkout", "shop", SpanType::Db);
    let ctx = ContextStack::new();
    let id = engine.new_span_at(&ctx, "checkout", 7, 9, 1_000);
    assert_eq!(id, 7);
    assert!(engine.try_close_at(id, 4_500));
    let exported = engine.take_exports();
    assert_eq!(exported.len(), 1);
    assert_eq!(exported[0].start, 1_000);
    assert_eq!(exported[0].duration, 3_500);
}

#[test]
fn duration_is_zero_when_clock_goes_backwards() {
    let mut engine = engine_with("checkout", "shop", SpanType::Db);
    let ctx = ContextStack::new();
    let id = engine.new_span_at(&ctx, "checkout", 7, 9, 10_000);
    assert!(engine.try_close_at(id, 2_000));
    let exported = engine.take_exports();
    assert_eq!(exported[0].duration, 0);
}

#[test]
fn child_inherits_parent_trace() {
    let mut engine = engine_with("checkout", "shop", SpanType::Db);
    let mut ctx = ContextStack::new();
    let parent = engine.new_span_at(&ctx, "checkout", 11, 22, 0);
    engine.enter(&mut ctx, parent);
    let child = engine.new_span_at(&ctx, "checkout", 33, 44, 5);
    assert!(engine.try_close(child));
    let exported = engine.take_exports();
    assert_eq!(exported[0].parent_id, Some(11));
    assert_eq!(exported[0].trace_id, 22);
    engine.exit(&mut ctx, parent);
    assert!(engine.try_close(parent));
}

#[test]
fn root_span_keeps_its_own_trace_id() {
    let mut engine = engine_with("checkout", "shop", SpanType::Db);
    let ctx = ContextStack::new();
    let id = engine.new_span_at(&ctx, "checkout", 11, 22, 0);
    assert!(engine.try_close(id));
    let exported = engine.take_exports();
    assert_eq!(exported[0].parent_id, None);
    assert_eq!(exported[0].trace_id, 22);
}

#[test]
fn finalized_parent_starts_fresh_trace() {
    let mut engine = engine_with("checkout", "shop", SpanType::Db);
    let mut ctx = ContextStack::new();
    let parent = engine.new_span_at(&ctx, "checkout", 11, 22, 0);
    engine.enter(&mut ctx, parent);
    // the parent's builder leaves the table before the child starts
    assert!(engine.try_close(parent));
    let child = engine.new_span_at(&ctx, "checkout", 33, 44, 5);
    assert!(engine.try_close(child));
    let exported = engine.take_exports();
    assert_eq!(exported.len(), 2);
    assert_eq!(exported[1].parent_id, Some(11));
    assert_eq!(exported[1].trace_id, 44);
}

#[test]
fn status_code_and_error_fields_land_in_meta() {
    let mut engine = engine_with("checkout", "shop", SpanType::Db);
    let ctx = ContextStack::new();
    let id = engine.new_span(&ctx, "checkout");
    engine.record_u64(id, "http_status_code", 500);
    engine.record_str(id, "error_type", "X");
    assert!(engine.try_close(id));
    let exported = engine.take_exports();
    let span = &exported[0];
    assert_eq!(span.meta.get("http.status_code"), Some("500".to_string()));
    assert_eq!(span.error, 1);
    assert_eq!(span.meta.get("error.type"), Some("X".to_string()));
}

#[test]
fn enter_exit_round_trip_restores_stack() {
    let mut engine = engine_with("checkout", "shop", SpanType::Db);
    let mut ctx = ContextStack::new();
    assert!(ctx.is_empty());
    let id = engine.new_span(&ctx, "checkout");
    engine.enter(&mut ctx, id);
    assert_eq!(ctx.current_span_id(), Some(id));
    engine.exit(&mut ctx, id);
    assert!(ctx.is_empty());
    assert_eq!(engine.fault_count(), 0);
    assert!(engine.try_close(id));
}

#[test]
fn mismatched_exit_is_a_fault_but_not_fatal() {
    let mut engine = engine_with("checkout", "shop", SpanType::Db);
    let mut ctx = ContextStack::new();
    let outer = engine.new_span(&ctx, "checkout");
    let inner = engine.new_span(&ctx, "checkout");
    engine.enter(&mut ctx, outer);
    engine.enter(&mut ctx, inner);
    // out of order: the top (inner) is removed, and the fault is counted
    engine.exit(&mut ctx, outer);
    assert_eq!(engine.fault_count(), 1);
    assert_eq!(ctx.current_span_id(), Some(outer));
    // the stack below is intact: the next exit is clean
    engine.exit(&mut ctx, outer);
    assert_eq!(engine.fault_count(), 1);
    assert!(ctx.is_empty());
    // popping an empty stack is a fault, not a crash
    engine.exit(&mut ctx, outer);
    assert_eq!(engine.fault_count(), 2);
    assert!(engine.try_close(outer));
    assert!(engine.try_close(inner));
}

#[test]
fn end_to_end_checkout_scenario() {
    let mut engine = engine_with("checkout", "shop", SpanType::Db);
    let ctx = ContextStack::new();
    assert!(engine.enabled("checkout"));
    assert!(!engine.enabled("payment"));
    let id = engine.new_span(&ctx, "checkout");
    engine.record_str(id, "resource", "POST /cart");
    assert!(engine.try_close(id));
    let exported = engine.take_exports();
    assert_eq!(exported.len(), 1);
    let traces = make_traces(exported.into_iter().next().unwrap());
    assert_eq!(traces.len(), 1);
    assert_eq!(traces[0].len(), 1);
    let span = &traces[0][0];
    assert_eq!(span.name, "checkout");
    assert_eq!(span.service, "shop");
    assert_eq!(span.span_type.as_str(), "db");
    assert_eq!(span.resource, "POST /cart");
    assert_eq!(span.error, 0);
    assert_eq!(span.parent_id, None);
    // the fixed process tags travel in the meta table
    assert_eq!(span.meta.get("service"), Some("test-service".to_string()));
    assert_eq!(span.meta.get("env"), Some("test-env".to_string()));
    assert_eq!(span.meta.get("version"), Some("1.2.3".to_string()));
}

#[test]
fn record_on_finalized_span_is_a_no_op() {
    let mut engine = engine_with("checkout", "shop", SpanType::Db);
    let ctx = ContextStack::new();
    let id = engine.new_span(&ctx, "checkout");
    assert!(engine.try_close(id));
    let faults = engine.fault_count();
    engine.record_str(id, "resource", "GET /late");
    assert_eq!(engine.fault_count(), faults);
    assert_eq!(engine.take_exports().len(), 1);
}

#[test]
fn unknown_field_is_a_fault_and_ignored() {
    let mut engine = engine_with("checkout", "shop", SpanType::Db);
    let ctx = ContextStack::new();
    let id = engine.new_span(&ctx, "checkout");
    engine.record_str(id, "colour", "blue");
    assert_eq!(engine.fault_count(), 1);
    engine.record_u64(id, "trace_id", 0);
    assert_eq!(engine.fault_count(), 2);
    engine.record_str(id, "trace_id", "not a number");
    assert_eq!(engine.fault_count(), 3);
    assert!(engine.try_close(id));
    let exported = engine.take_exports();
    assert_eq!(exported[0].meta.get("colour"), None);
}

#[test]
fn identifier_fields_accept_numeric_strings() {
    let mut engine = engine_with("checkout", "shop", SpanType::Db);
    let ctx = ContextStack::new();
    let id = engine.new_span(&ctx, "checkout");
    engine.record_str(id, "trace_id", "987");
    engine.record_str(id, "parent_id", "+654");
    engine.record_u64(id, "start", 42);
    assert!(engine.try_close_at(id, 142));
    let exported = engine.take_exports();
    assert_eq!(exported[0].trace_id, 987);
    assert_eq!(exported[0].parent_id, Some(654));
    assert_eq!(exported[0].start, 42);
    assert_eq!(exported[0].duration, 100);
    assert_eq!(engine.fault_count(), 0);
}

#[test]
fn event_lands_on_current_or_target_span() {
    let mut engine = engine_with("checkout", "shop", SpanType::Db);
    let mut ctx = ContextStack::new();
    let id = engine.new_span(&ctx, "checkout");
    // no target and no active span: dropped without fault
    engine.event_str(&ctx, None, "error_msg", "lost");
    engine.enter(&mut ctx, id);
    engine.event_str(&ctx, None, "error_msg", "boom");
    engine.exit(&mut ctx, id);
    let other = engine.new_span(&ctx, "checkout");
    engine.event_u64(&ctx, Some(other), "http_status_code", 404);
    assert!(engine.try_close(id));
    assert!(engine.try_close(other));
    let exported = engine.take_exports();
    assert_eq!(exported[0].meta.get("error.msg"), Some("boom".to_string()));
    assert_eq!(exported[0].error, 1);
    assert_eq!(
        exported[1].meta.get("http.status_code"),
        Some("404".to_string())
    );
    assert_eq!(exported[1].meta.get("error.msg"), None);
}

#[test]
fn clone_of_unknown_id_is_fault_but_returns_id() {
    let mut engine = engine_with("checkout", "shop", SpanType::Db);
    assert_eq!(engine.clone_span(12345), 12345);
    assert_eq!(engine.fault_count(), 1);
    assert!(!engine.try_close(12345));
    assert_eq!(engine.fault_count(), 2);
}

#[test]
fn current_span_reports_id_and_name() {
    let mut engine = engine_with("checkout", "shop", SpanType::Db);
    let mut ctx = ContextStack::new();
    assert!(engine.current_span(&ctx).is_none());
    let id = engine.new_span(&ctx, "checkout");
    engine.enter(&mut ctx, id);
    let current = engine.current_span(&ctx).unwrap();
    assert_eq!(current.0, id);
    assert_eq!(current.1, "checkout");
    engine.exit(&mut ctx, id);
    assert!(engine.try_close(id));
}

#[test]
fn abandoned_span_is_never_exported() {
    let mut engine = engine_with("checkout", "shop", SpanType::Db);
    let ctx = ContextStack::new();
    let id = engine.new_span(&ctx, "checkout");
    assert!(engine.is_open(id));
    assert_eq!(engine.take_exports().len(), 0);
}

#[test]
fn builder_records_fields_directly() {
    let mut builder = SpanBuilder::default();
    assert!(!builder.record_u64("http_status_code", 500));
    // a later write to the same key wins, and zero renders as "0"
    assert!(!builder.record_u64("http_status_code", 0));
    assert!(!builder.record_str("http_method", "POST"));
    assert!(!builder.record_str("resource", "GET /x"));
    assert!(builder.record_u64("bogus", 1));
    let span = builder.build();
    assert_eq!(span.meta.get("http.status_code"), Some("0".to_string()));
    assert_eq!(span.meta.get("http.method"), Some("POST".to_string()));
    assert_eq!(span.resource, "GET /x");
}

#[test]
fn extract_datadog_headers() {
    let headers = vec![
        ("Content-Type".to_string(), "application/json".to_string()),
        ("X-Datadog-Trace-Id".to_string(), "123".to_string()),
        ("x-datadog-parent-id".to_string(), "456".to_string()),
    ];
    assert_eq!(extract_trace_and_parent(&headers), (Some(123), Some(456)));
}

#[test]
fn extract_b3_pair_headers() {
    let headers = vec![
        ("X-B3-TraceId".to_string(), "77".to_string()),
        ("X-B3-SpanId".to_string(), "88".to_string()),
    ];
    assert_eq!(extract_trace_and_parent(&headers), (Some(77), Some(88)));
}

#[test]
fn extract_b3_single_header() {
    let headers = vec![("b3".to_string(), "13-14-1-15".to_string())];
    assert_eq!(extract_trace_and_parent(&headers), (Some(13), Some(14)));
    let two_parts = vec![("B3".to_string(), "5-6".to_string())];
    assert_eq!(extract_trace_and_parent(&two_parts), (Some(5), Some(6)));
    let one_part = vec![("b3".to_string(), "5".to_string())];
    assert_eq!(extract_trace_and_parent(&one_part), (None, None));
}

#[test]
fn extract_first_match_wins_and_bad_numbers_are_ignored() {
    let headers = vec![
        ("x-datadog-trace-id".to_string(), "1".to_string()),
        ("x-b3-traceid".to_string(), "2".to_string()),
        ("x-datadog-parent-id".to_string(), "abc".to_string()),
    ];
    assert_eq!(extract_trace_and_parent(&headers), (Some(1), None));
    let empty: Vec<(String, String)> = vec![];
    assert_eq!(extract_trace_and_parent(&empty), (None, None));
}
