use tracing_datadog_apm::strutil::{
    eq_ignore_ascii_case, parse_u64, str_eq, trim, u64_to_dec_string,
};
use tracing_datadog_apm::FieldName;

#[test]
fn parse_u64_accepts_plain_and_signed_decimals() {
    assert_eq!(parse_u64("0"), Some(0));
    assert_eq!(parse_u64("42"), Some(42));
    assert_eq!(parse_u64("+42"), Some(42));
    assert_eq!(parse_u64("18446744073709551615"), Some(u64::MAX));
}

#[test]
fn parse_u64_rejects_overflow_and_garbage() {
    assert_eq!(parse_u64("18446744073709551616"), None);
    assert_eq!(parse_u64("99999999999999999999999"), None);
    assert_eq!(parse_u64(""), None);
    assert_eq!(parse_u64("+"), None);
    assert_eq!(parse_u64("-1"), None);
    assert_eq!(parse_u64("12a"), None);
    assert_eq!(parse_u64(" 12"), None);
}

#[test]
fn dec_rendering_matches_std() {
    assert_eq!(u64_to_dec_string(0), "0");
    assert_eq!(u64_to_dec_string(7), "7");
    assert_eq!(u64_to_dec_string(500), "500");
    assert_eq!(u64_to_dec_string(u64::MAX), u64::MAX.to_string());
}

#[test]
fn trim_and_case_insensitive_compare() {
    assert_eq!(trim("  web \t"), "web");
    assert_eq!(trim(""), "");
    assert_eq!(trim(" \n "), "");
    assert!(eq_ignore_ascii_case("X-DataDog-Trace-Id", "x-datadog-trace-id"));
    assert!(!eq_ignore_ascii_case("b3", "b4"));
    assert!(str_eq("same", "same"));
    assert!(!str_eq("same", "Same"));
}

#[test]
fn field_names_cover_the_vocabulary() {
    assert_eq!(FieldName::from_str("trace_id"), Some(FieldName::TraceId));
    assert_eq!(FieldName::from_str("parent_id"), Some(FieldName::ParentId));
    assert_eq!(FieldName::from_str("resource"), Some(FieldName::Resource));
    assert_eq!(FieldName::from_str("start"), Some(FieldName::Start));
    assert_eq!(
        FieldName::from_str("http_method"),
        Some(FieldName::HttpMethod)
    );
    assert_eq!(FieldName::from_str("http_url"), Some(FieldName::HttpUrl));
    assert_eq!(
        FieldName::from_str("http_status_code"),
        Some(FieldName::HttpStatusCode)
    );
    assert_eq!(
        FieldName::from_str("error_type"),
        Some(FieldName::ErrorType)
    );
    assert_eq!(FieldName::from_str("error_msg"), Some(FieldName::ErrorMsg));
    assert_eq!(
        FieldName::from_str("error_stack"),
        Some(FieldName::ErrorStack)
    );
    assert_eq!(FieldName::from_str("colour"), None);
    assert_eq!(FieldName::from_str("Trace_Id"), None);
}
