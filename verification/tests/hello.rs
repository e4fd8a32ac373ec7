use lambda_gateway::docker::{container_spec, health_check_url, random_container_suffix};
use lambda_gateway::hello::{
    create_error_response, create_success_response, echo_step, errors_on_roll, get_random_delay, panics_on_roll,
    EchoStep,
    should_error,
};
use lambda_gateway::runtime::models::LambdaRequest;
use lambda_gateway::text::decimal_string;
use serde_json::Value;
use std::time::Duration;

#[test]
fn test_random_delay_range() {
    for _ in 0..100 {
        let delay = Duration::from_millis(get_random_delay());
        assert!(delay >= Duration::from_millis(1000));
        assert!(delay <= Duration::from_millis(3000));
    }
}

#[test]
fn test_probability_functions_return_bool() {
    // Just test that they return booleans and don't panic
    for _ in 0..50 {
        let _ = lambda_gateway::hello::should_panic();
        let _ = should_error();
    }
}

#[test]
fn roll_thresholds() {
    assert!(panics_on_roll(1) && panics_on_roll(2) && !panics_on_roll(3));
    assert!(errors_on_roll(8) && !errors_on_roll(9) && !errors_on_roll(100));
}

fn header<'a>(headers: &'a [(String, String)], name: &str) -> Option<&'a str> {
    headers.iter().find(|(n, _)| n == name).map(|(_, v)| v.as_str())
}

fn create_test_request() -> LambdaRequest {
    LambdaRequest {
        request_id: 0x123e4567_e89b_12d3_a456_426614174000,
        method: "GET".to_string(),
        path: "/test".to_string(),
        query_parameters: Vec::new(),
        headers: vec![("user-agent".to_string(), "test-client".to_string())],
        body: "test body".to_string(),
        remote_addr: Some("127.0.0.1".to_string()),
        timestamp: "2024-01-15T10:30:00Z".to_string(),
    }
}

#[test]
fn test_create_success_response() {
    let req = create_test_request();
    let response = create_success_response(req.clone(), 1500, 8081, "2024-01-15T10:30:01.500Z");

    assert_eq!(response.status_code, 200);
    assert_eq!(response.request_id, req.request_id);

    let body: Value = serde_json::from_str(&response.body).unwrap();
    assert_eq!(body["status"], "success");
    assert_eq!(body["echo"]["method"], "GET");
    assert_eq!(body["echo"]["path"], "/test");
    assert_eq!(body["metadata"]["processing_delay_ms"], 1500);
    assert_eq!(body["server_info"]["port"], 8081);

    let headers = response.headers.unwrap();
    assert_eq!(header(&headers, "x-lambda-port"), Some("8081"));
}

#[test]
fn test_create_error_response() {
    let request_id = 0x123e4567_e89b_12d3_a456_426614174000;
    let response = create_error_response(request_id, 8082, "2024-01-15T10:30:00Z");

    assert_eq!(response.status_code, 500);
    assert_eq!(response.request_id, request_id);

    let body: Value = serde_json::from_str(&response.body).unwrap();
    assert_eq!(body["status"], "error");
    assert_eq!(body["error"]["code"], "INTERNAL_SERVER_ERROR");
    assert_eq!(body["error"]["request_id"], "123e4567-e89b-12d3-a456-426614174000");
    assert_eq!(body["server_info"]["port"], 8082);

    let headers = response.headers.unwrap();
    assert_eq!(header(&headers, "x-lambda-port"), Some("8082"));
    assert_eq!(header(&headers, "x-error-type"), Some("simulated"));
}

fn object(members: Vec<(&str, Value)>) -> Value {
    let mut map = serde_json::Map::new();
    for (k, v) in members {
        map.insert(k.to_string(), v);
    }
    Value::Object(map)
}

fn string_map(entries: &[(String, String)]) -> Value {
    let mut map = serde_json::Map::new();
    for (k, v) in entries {
        map.insert(k.clone(), Value::String(v.clone()));
    }
    Value::Object(map)
}

#[test]
fn success_body_is_what_serde_json_writes() {
    let mut req = create_test_request();
    req.headers = vec![
        ("x-b".to_string(), "2".to_string()),
        ("accept".to_string(), "*/*".to_string()),
        ("X-Upper".to_string(), "quote \" and \\".to_string()),
        ("x-a".to_string(), "tab\there".to_string()),
    ];
    req.query_parameters = vec![
        ("z".to_string(), "last".to_string()),
        ("a".to_string(), "first".to_string()),
        ("a".to_string(), "again".to_string()),
    ];
    req.remote_addr = None;
    let response = create_success_response(req.clone(), 1847, 8080, "2024-01-15T10:30:00Z");
    let expected = object(vec![
        ("status", Value::from("success")),
        (
            "echo",
            object(vec![
                ("request_id", Value::from("123e4567-e89b-12d3-a456-426614174000")),
                ("method", Value::from("GET")),
                ("path", Value::from("/test")),
                ("query_parameters", string_map(&req.query_parameters)),
                ("headers", string_map(&req.headers)),
                ("body", Value::from("test body")),
                ("remote_addr", Value::Null),
                ("timestamp", Value::from("2024-01-15T10:30:00Z")),
            ]),
        ),
        (
            "metadata",
            object(vec![
                ("processing_delay_ms", Value::from(1847u64)),
                ("handler_version", Value::from("1.0.0")),
                ("simulated_work", Value::from(true)),
            ]),
        ),
        (
            "server_info",
            object(vec![
                ("function_name", Value::from("hello-lambda")),
                ("runtime", Value::from("custom-rust-runtime")),
                ("port", Value::from(8080u16)),
                ("response_time", Value::from("2024-01-15T10:30:00Z")),
            ]),
        ),
    ]);
    assert_eq!(response.body, expected.to_string());
}

#[test]
fn error_body_is_what_serde_json_writes() {
    let response = create_error_response(7, 9000, "2024-01-15T10:30:00.123456789Z");
    let expected = object(vec![
        ("status", Value::from("error")),
        (
            "error",
            object(vec![
                ("code", Value::from("INTERNAL_SERVER_ERROR")),
                ("message", Value::from("Simulated server error occurred")),
                ("details", Value::from("This is a randomly generated error for testing purposes")),
                ("request_id", Value::from("00000000-0000-0000-0000-000000000007")),
                ("timestamp", Value::from("2024-01-15T10:30:00.123456789Z")),
            ]),
        ),
        ("metadata", object(vec![("error_simulation", Value::from(true)), ("handler_version", Value::from("1.0.0"))])),
        (
            "server_info",
            object(vec![
                ("function_name", Value::from("hello-lambda")),
                ("runtime", Value::from("custom-rust-runtime")),
                ("port", Value::from(9000u16)),
            ]),
        ),
    ]);
    assert_eq!(response.body, expected.to_string());
}

#[test]
fn success_response_headers() {
    let response = create_success_response(create_test_request(), 1500, 8081, "2024-01-15T10:30:00Z");
    assert_eq!(response.status_code, 200);
    let headers = response.headers.unwrap();
    assert_eq!(header(&headers, "x-lambda-port"), Some("8081"));
    assert_eq!(header(&headers, "x-processing-delay-ms"), Some("1500"));
    assert_eq!(header(&headers, "x-function-name"), Some("hello-lambda"));
    assert_eq!(header(&headers, "content-type"), Some("application/json"));
}

#[test]
fn decimal_text() {
    assert_eq!(decimal_string(0), "0");
    assert_eq!(decimal_string(7), "7");
    assert_eq!(decimal_string(65535), "65535");
    assert_eq!(decimal_string(u64::MAX), u64::MAX.to_string());
}

#[test]
fn container_spec_for_a_port() {
    let spec = container_spec("hello-lambda", 128, 8042, "abcDEF123456", "/abs/hello-lambda");
    assert_eq!(spec.name, "lambda-hello-lambda-8042-abcDEF123456");
    assert_eq!(spec.image, "alpine:latest");
    assert_eq!(spec.cmd, vec!["/abs/hello-lambda".to_string()]);
    assert_eq!(spec.env, vec!["LAMBDA_PORT=8042".to_string(), "RUST_LOG=info".to_string()]);
    assert_eq!(spec.exposed_port, "8042/tcp");
    assert_eq!(spec.host_port, "8042");
    assert_eq!(spec.host_ip, "127.0.0.1");
    assert_eq!(spec.memory_bytes, 128 * 1024 * 1024);
    assert_eq!(spec.binds, vec!["/abs/hello-lambda:/app/lambda:ro".to_string()]);
    assert!(spec.auto_remove);
    assert!(!spec.restart_on_failure);
    assert_eq!(spec.labels.len(), 3);
}

#[test]
fn container_suffix_is_alphanumeric() {
    let s = random_container_suffix();
    assert_eq!(s.chars().count(), 12);
    assert!(s.chars().all(|c| c.is_ascii_alphanumeric()));
}

#[test]
fn health_url() {
    assert_eq!(health_check_url(8080), "http://127.0.0.1:8080/health");
}

#[test]
fn echo_step_prefers_panic_then_error() {
    assert_eq!(echo_step(true, true), EchoStep::Panic);
    assert_eq!(echo_step(true, false), EchoStep::Panic);
    assert_eq!(echo_step(false, true), EchoStep::Error);
    assert_eq!(echo_step(false, false), EchoStep::Work);
}
