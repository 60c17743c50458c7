use std::time::{Duration, SystemTime, UNIX_EPOCH};

use tracing_datadog_apm::{
    ClientConfig, ServiceName, SpanBuilder, SpanMetaKey, SpanName, SpanType,
};

fn now_ns() -> u64 {
    SystemTime::now()
        .duration_since(UNIX_EPOCH)
        .unwrap()
        .as_nanos() as u64
}

#[test]
fn test_default_config() {
    let config = ClientConfig::default();
    assert_eq!(config.datadog_agent_host, "localhost");
    assert_eq!(config.datadog_agent_port, 8126);
    assert_eq!(config.connect_timeout_ms, 100);
    assert_eq!(config.request_timeout_ms, 100);
}

#[test]
fn test_new_config() {
    let config = ClientConfig::new();
    assert_eq!(config.datadog_agent_host, "localhost");
    assert_eq!(config.datadog_agent_port, 8126);
    assert_eq!(config.connect_timeout_ms, 100);
    assert_eq!(config.request_timeout_ms, 100);
}

#[test]
fn test_config_host() {
    let config = ClientConfig::new().datadog_agent_host("foo".to_string());
    assert_eq!(config.datadog_agent_host, "foo");
    assert_eq!(config.datadog_agent_port, 8126);
    assert_eq!(config.connect_timeout_ms, 100);
    assert_eq!(config.request_timeout_ms, 100);
}

#[test]
fn test_config_port() {
    let config = ClientConfig::new().datadog_agent_port(1234);
    assert_eq!(config.datadog_agent_host, "localhost");
    assert_eq!(config.datadog_agent_port, 1234);
    assert_eq!(config.connect_timeout_ms, 100);
    assert_eq!(config.request_timeout_ms, 100);
}

#[test]
fn test_config_connect_timeout() {
    let config = ClientConfig::new().connect_timeout_ms(500);
    assert_eq!(config.datadog_agent_host, "localhost");
    assert_eq!(config.datadog_agent_port, 8126);
    assert_eq!(config.connect_timeout_ms, 500);
    assert_eq!(config.request_timeout_ms, 100);
}

#[test]
fn test_config_request_timeout() {
    let config = ClientConfig::new().request_timeout_ms(750);
    assert_eq!(config.datadog_agent_host, "localhost");
    assert_eq!(config.datadog_agent_port, 8126);
    assert_eq!(config.connect_timeout_ms, 100);
    assert_eq!(config.request_timeout_ms, 750);
}

#[test]
fn test_config_chain() {
    let config = ClientConfig::new()
        .datadog_agent_host("foo".to_string())
        .datadog_agent_port(1234)
        .connect_timeout_ms(500)
        .request_timeout_ms(750);
    assert_eq!(config.datadog_agent_host, "foo");
    assert_eq!(config.datadog_agent_port, 1234);
    assert_eq!(config.connect_timeout_ms, 500);
    assert_eq!(config.request_timeout_ms, 750);
}

#[test]
fn test_span_type_web() {
    let span_type = SpanType::from_str("web").unwrap();
    assert_eq!(span_type, SpanType::Web);
    assert_eq!(span_type.as_str(), "web");
}

#[test]
fn test_span_type_db() {
    let span_type = SpanType::from_str("db").unwrap();
    assert_eq!(span_type, SpanType::Db);
    assert_eq!(span_type.as_str(), "db");
}

#[test]
fn test_span_type_cache() {
    let span_type = SpanType::from_str("cache").unwrap();
    assert_eq!(span_type, SpanType::Cache);
    assert_eq!(span_type.as_str(), "cache");
}

#[test]
fn test_span_type_custom() {
    let span_type = SpanType::from_str("custom").unwrap();
    assert_eq!(span_type, SpanType::Custom);
    assert_eq!(span_type.as_str(), "custom");
}

#[test]
fn test_span_type_from_str_capitalized() {
    let span_type = SpanType::from_str("Web").unwrap();
    assert_eq!(span_type, SpanType::Web);
    assert_eq!(span_type.as_str(), "web");
}

#[test]
fn test_span_type_other_string_defaults_to_custom() {
    let span_type = SpanType::from_str("fake type").unwrap();
    assert_eq!(span_type, SpanType::Custom);
    assert_eq!(span_type.as_str(), "custom");
}

#[test]
fn test_default_span_builder() {
    let span = SpanBuilder::default().build();
    assert_eq!(span.error, 0);
    assert!(span.meta.is_empty());
    assert!(span.metrics.is_empty());
    assert_eq!(span.name, "");
    assert_eq!(span.parent_id, None);
    assert_eq!(span.resource, "");
    assert_eq!(span.service, "");
    assert!(span.span_id > 0);
    assert!(span.start > 0);
    assert!(span.trace_id > 0);
    assert_eq!(span.span_type.as_str(), "custom");
}

#[test]
fn test_span_builder() {
    let start = now_ns() - Duration::from_nanos(100).as_nanos() as u64;
    let parent_id: u64 = 5;
    let trace_id: u64 = 100;
    let name = "foo";
    let resource = "bar";
    let service = "aliceandbob";
    let kind = SpanType::Db;
    let mut builder = SpanBuilder::default();
    builder.start(start);
    builder.parent_id(parent_id);
    builder.trace_id(trace_id);
    builder.error(true);
    builder.name(SpanName(name.to_string()));
    builder.resource(resource.to_string());
    builder.service(ServiceName(service.to_string()));
    builder.span_type(kind);
    let span = builder.build();
    assert!(span.duration > 100);
    assert_eq!(span.error, 1);
    assert!(span.meta.is_empty());
    assert!(span.metrics.is_empty());
    assert_eq!(span.name, name);
    assert_eq!(span.parent_id, Some(parent_id));
    assert_eq!(span.resource, resource);
    assert_eq!(span.service, service);
    assert!(span.span_id > 0);
    assert_eq!(span.start, start);
    assert_eq!(span.trace_id, trace_id);
    assert_eq!(span.span_type.as_str(), "db");
}

#[test]
fn test_span_meta_key_service() {
    assert_eq!(&*SpanMetaKey::Service.to_string(), "service");
}

#[test]
fn test_span_meta_key_env() {
    assert_eq!(&*SpanMetaKey::Env.to_string(), "env");
}

#[test]
fn test_span_meta_key_version() {
    assert_eq!(&*SpanMetaKey::Version.to_string(), "version");
}

#[test]
fn test_span_meta_key_http_method() {
    assert_eq!(&*SpanMetaKey::HttpMethod.to_string(), "http.method");
}

#[test]
fn test_span_meta_key_http_url() {
    assert_eq!(&*SpanMetaKey::HttpUrl.to_string(), "http.url");
}

#[test]
fn test_span_meta_key_http_status_code() {
    assert_eq!(
        &*SpanMetaKey::HttpStatusCode.to_string(),
        "http.status_code"
    );
}

#[test]
fn test_span_meta_key_error_msg() {
    assert_eq!(&*SpanMetaKey::ErrorMsg.to_string(), "error.msg");
}

#[test]
fn test_span_meta_key_error_stack() {
    assert_eq!(&*SpanMetaKey::ErrorStack.to_string(), "error.stack");
}

#[test]
fn test_span_meta_key_error_type() {
    assert_eq!(&*SpanMetaKey::ErrorType.to_string(), "error.type");
}
