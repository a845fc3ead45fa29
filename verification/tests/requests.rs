use dapr_comms::comms::DaprHttpInvoker;
use dapr_comms::comms::DaprHttpPublisher;
use dapr_comms::comms::Headers;
use dapr_comms::comms::map_transport_outcome;
use dapr_comms::publisher::Publisher;
use dapr_comms::publisher::TraceContext;
use dapr_comms::publisher::create_traceparent_header;

fn pair(k: &str, v: &str) -> (String, String) {
    (k.to_string(), v.to_string())
}

#[test]
fn invoke_supplies_content_type_and_app_id() {
    let inv = DaprHttpInvoker::new(
        "localhost".to_string(),
        3500,
        "target-app".to_string(),
        "neworder".to_string(),
    );
    let headers = Headers::new(vec![pair("X-Extra", "1")]);
    let prepared = inv.prepare_invoke(headers);
    assert_eq!(prepared.url, "http://localhost:3500/neworder");
    assert_eq!(
        prepared.headers.get("Content-Type"),
        Some(&"application/json".to_string())
    );
    assert_eq!(
        prepared.headers.get("dapr-app-id"),
        Some(&"target-app".to_string())
    );
    assert_eq!(prepared.headers.get("X-Extra"), Some(&"1".to_string()));
}

#[test]
fn invoke_preserves_caller_content_type() {
    let inv = DaprHttpInvoker::new(
        "localhost".to_string(),
        3500,
        "target-app".to_string(),
        "neworder".to_string(),
    );
    let headers = Headers::new(vec![pair("Content-Type", "text/plain")]);
    let prepared = inv.prepare_invoke(headers);
    assert_eq!(
        prepared.headers.get("Content-Type"),
        Some(&"text/plain".to_string())
    );
}

#[test]
fn invoke_content_type_check_is_case_sensitive() {
    let inv = DaprHttpInvoker::new(
        "localhost".to_string(),
        3500,
        "target-app".to_string(),
        "neworder".to_string(),
    );
    let headers = Headers::new(vec![pair("content-type", "text/plain")]);
    let prepared = inv.prepare_invoke(headers);
    // The exact-case name is absent, so the default is still supplied.
    assert_eq!(
        prepared.headers.get("Content-Type"),
        Some(&"application/json".to_string())
    );
    assert_eq!(
        prepared.headers.get("content-type"),
        Some(&"text/plain".to_string())
    );
}

#[test]
fn invoke_overwrites_caller_app_id() {
    let inv = DaprHttpInvoker::new(
        "localhost".to_string(),
        3500,
        "target-app".to_string(),
        "neworder".to_string(),
    );
    let headers = Headers::new(vec![pair("dapr-app-id", "someone-else")]);
    let prepared = inv.prepare_invoke(headers);
    assert_eq!(
        prepared.headers.get("dapr-app-id"),
        Some(&"target-app".to_string())
    );
}

#[test]
fn publish_url_is_exact() {
    let publisher = DaprHttpPublisher::new(
        "localhost".to_string(),
        3500,
        "mypubsub".to_string(),
        "orders".to_string(),
    );
    let prepared = publisher.prepare_publish(Headers::new(vec![]));
    assert_eq!(prepared.url, "http://localhost:3500/v1.0/publish/mypubsub/orders");
    assert!(prepared.headers.pairs().is_empty());
}

#[test]
fn publish_sends_caller_headers_verbatim() {
    let publisher = DaprHttpPublisher::new(
        "localhost".to_string(),
        3500,
        "mypubsub".to_string(),
        "orders".to_string(),
    );
    let headers = Headers::new(vec![pair("X-Custom", "yes")]);
    let prepared = publisher.prepare_publish(headers);
    // No Content-Type is forced by this variant.
    assert_eq!(prepared.headers.get("Content-Type"), None);
    assert_eq!(prepared.headers.get("X-Custom"), Some(&"yes".to_string()));
    assert_eq!(prepared.headers.pairs().len(), 1);
}

#[test]
fn traceparent_sampled() {
    let ctx = TraceContext {
        trace_id: 0x0102030405060708090a0b0c0d0e0f10,
        span_id: 0x0a0b0c0d0e0f1011,
        sampled: true,
        trace_state: String::new(),
    };
    assert_eq!(
        create_traceparent_header(&ctx),
        "00-0102030405060708090a0b0c0d0e0f10-0a0b0c0d0e0f1011-01"
    );
}

#[test]
fn traceparent_not_sampled() {
    let ctx = TraceContext {
        trace_id: 0x0102030405060708090a0b0c0d0e0f10,
        span_id: 0x0a0b0c0d0e0f1011,
        sampled: false,
        trace_state: String::new(),
    };
    assert_eq!(
        create_traceparent_header(&ctx),
        "00-0102030405060708090a0b0c0d0e0f10-0a0b0c0d0e0f1011-00"
    );
}

#[test]
fn traceparent_keeps_leading_zeros() {
    let ctx = TraceContext {
        trace_id: 0x1,
        span_id: 0x2,
        sampled: true,
        trace_state: String::new(),
    };
    assert_eq!(
        create_traceparent_header(&ctx),
        "00-00000000000000000000000000000001-0000000000000002-01"
    );
}

#[test]
fn tracing_publisher_attaches_trace_headers() {
    let publisher = Publisher::new(
        "localhost".to_string(),
        3500,
        "mypubsub".to_string(),
        "orders".to_string(),
    );
    let ctx = TraceContext {
        trace_id: 0x0102030405060708090a0b0c0d0e0f10,
        span_id: 0x0a0b0c0d0e0f1011,
        sampled: true,
        trace_state: "vendor=abc".to_string(),
    };
    let prepared = publisher.prepare_publish(&ctx);
    assert_eq!(prepared.url, "http://localhost:3500/v1.0/publish/mypubsub/orders");
    assert_eq!(prepared.headers.pairs().len(), 2);
    assert_eq!(
        prepared.headers.get("traceparent"),
        Some(&"00-0102030405060708090a0b0c0d0e0f10-0a0b0c0d0e0f1011-01".to_string())
    );
    assert_eq!(
        prepared.headers.get("tracestate"),
        Some(&"vendor=abc".to_string())
    );
}

#[test]
fn transport_failure_is_an_error_with_its_cause() {
    let result = map_transport_outcome(Err("connection refused".to_string()));
    let error = result.unwrap_err();
    assert!(!error.message().is_empty());
    assert_eq!(error.message().as_str(), "connection refused");
}

#[test]
fn http_500_response_counts_as_success() {
    // Status codes are not inspected at this layer: any received response,
    // a server error included, is reported as success.
    assert!(map_transport_outcome(Ok(500)).is_ok());
    assert!(map_transport_outcome(Ok(200)).is_ok());
    assert!(map_transport_outcome(Ok(404)).is_ok());
}

#[test]
fn add_header_overwrites_existing_value() {
    let mut headers = Headers::new(vec![]);
    headers.add_header("X-Key", "first");
    headers.add_header("X-Key", "second");
    assert_eq!(headers.get("X-Key"), Some(&"second".to_string()));
    assert_eq!(headers.pairs().len(), 1);
}

#[test]
fn new_keeps_the_last_value_of_a_repeated_name() {
    let headers = Headers::new(vec![pair("X-Key", "first"), pair("X-Key", "second")]);
    assert_eq!(headers.get("X-Key"), Some(&"second".to_string()));
    assert_eq!(headers.pairs().len(), 1);
}

#[test]
fn header_names_match_exactly() {
    let headers = Headers::new(vec![pair("X-Key", "value")]);
    assert!(headers.contains_key("X-Key"));
    assert!(!headers.contains_key("x-key"));
    assert_eq!(headers.get("x-key"), None);
}

#[test]
fn invoke_method_name_is_used_verbatim() {
    let inv = DaprHttpInvoker::new(
        "127.0.0.1".to_string(),
        80,
        "target-app".to_string(),
        "v1.0/invoke/other/method/run".to_string(),
    );
    let prepared = inv.prepare_invoke(Headers::new(vec![]));
    assert_eq!(prepared.url, "http://127.0.0.1:80/v1.0/invoke/other/method/run");
}
