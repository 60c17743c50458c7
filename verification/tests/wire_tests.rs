use tracing_datadog_apm::{
    encode_traces, make_traces, ContextStack, ServiceName, SpanBuilder, SpanName, SpanType,
    TracingSubscriberDatadog, TracingSubscriberDatadogConfig,
};

#[test]
fn encode_empty_batch() {
    let traces: Vec<Vec<tracing_datadog_apm::Span>> = vec![];
    assert_eq!(encode_traces(&traces), "[]");
}

#[test]
fn encode_one_span_exactly() {
    let mut builder = SpanBuilder::default();
    builder.name(SpanName("checkout".to_string()));
    builder.service(ServiceName("shop".to_string()));
    builder.span_type(SpanType::Db);
    builder.resource("POST /cart".to_string());
    builder.start(1_000);
    builder.trace_id(9);
    builder.parent_id(5);
    let mut span = builder.build_at(4_500);
    span.span_id = 7;
    let body = encode_traces(&make_traces(span));
    assert_eq!(
        body,
        "[[{\"duration\":3500,\"error\":0,\"meta\":{},\"metrics\":{},\
         \"name\":\"checkout\",\"parent_id\":5,\"resource\":\"POST /cart\",\
         \"service\":\"shop\",\"span_id\":7,\"start\":1000,\"trace_id\":9,\
         \"type\":\"db\"}]]"
    );
}

#[test]
fn encode_omits_parent_for_root_span() {
    let mut builder = SpanBuilder::default();
    builder.name(SpanName("root".to_string()));
    builder.start(0);
    let span = builder.build_at(1);
    let body = encode_traces(&make_traces(span));
    assert!(!body.contains("parent_id"));
    assert!(body.contains("\"duration\":1"));
}

#[test]
fn encode_escapes_strings() {
    let mut builder = SpanBuilder::default();
    builder.name(SpanName("a\"b\\c".to_string()));
    builder.resource("line1\nline2\tend\u{1}".to_string());
    builder.start(0);
    let span = builder.build_at(0);
    let body = encode_traces(&make_traces(span));
    assert!(body.contains("\"name\":\"a\\\"b\\\\c\""));
    assert!(body.contains("\"resource\":\"line1\\nline2\\tend\\u0001\""));
}

#[test]
fn encode_meta_keys_in_insertion_order_without_duplicates() {
    let mut engine = TracingSubscriberDatadog::new(
        TracingSubscriberDatadogConfig::new().add_mapping(
            SpanName("checkout".to_string()),
            (ServiceName("shop".to_string()), SpanType::Web),
        ),
        String::new(),
        String::new(),
        String::new(),
    );
    let ctx = ContextStack::new();
    let id = engine.new_span_at(&ctx, "checkout", 1, 2, 0);
    engine.record_str(id, "http_url", "/a");
    engine.record_str(id, "http_url", "/b");
    assert!(engine.try_close_at(id, 0));
    let spans = engine.take_exports();
    let body = encode_traces(&make_traces(spans.into_iter().next().unwrap()));
    // the three fixed tags come first, then each later key once
    assert!(body.contains(
        "\"meta\":{\"service\":\"\",\"env\":\"\",\"version\":\"\",\"http.url\":\"/b\"}"
    ));
    assert_eq!(body.matches("http.url").count(), 1);
}

#[test]
fn encode_two_traces_with_commas() {
    let mut first = SpanBuilder::default();
    first.start(0);
    let mut second = SpanBuilder::default();
    second.start(0);
    let traces = vec![vec![first.build_at(0)], vec![second.build_at(0)]];
    let body = encode_traces(&traces);
    assert!(body.starts_with("[[{"));
    assert!(body.contains("}],[{"));
    assert!(body.ends_with("}]]"));
}
