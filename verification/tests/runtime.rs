use lambda_gateway::runtime::error::RuntimeError;
use lambda_gateway::runtime::handler::{finalize_response, header_refusal, LambdaHandler};
use lambda_gateway::runtime::headers::CustomHeader;
use lambda_gateway::runtime::models::{LambdaRequest, LambdaResponse};
use lambda_gateway::runtime::server::{handle_health, handle_not_found, route, LambdaServer, Route};
use std::sync::Arc;

#[test]
fn test_server_start_error_display() {
    let error = RuntimeError::ServerStart("Port 8080 already in use".to_string());
    assert_eq!(error.to_string(), "Server start error: Port 8080 already in use");
}

#[test]
fn test_request_parsing_error_display() {
    let error = RuntimeError::RequestParsing("Invalid JSON format".to_string());
    assert_eq!(error.to_string(), "Request parsing error: Invalid JSON format");
}

#[test]
fn test_response_building_error_display() {
    let error = RuntimeError::ResponseBuilding("Invalid status code".to_string());
    assert_eq!(error.to_string(), "Response building error: Invalid status code");
}

#[test]
fn test_handler_error_display() {
    let error = RuntimeError::HandlerError("User function panicked".to_string());
    assert_eq!(error.to_string(), "Handler error: User function panicked");
}

#[test]
fn test_lambda_server_with_different_ports() {
    let handler = |_req: LambdaRequest| async {
        LambdaResponse {
            status_code: 200,
            headers: None,
            body: "test".to_string(),
            request_id: uuid::Uuid::new_v4().as_u128(),
            execution_time_ms: 100,
        }
    };

    let server1 = LambdaServer::new(3000, handler);
    let server2 = LambdaServer::new(4000, handler);

    assert_eq!(server1.port(), 3000);
    assert_eq!(server2.port(), 4000);
}

#[test]
fn test_handle_health() {
    let response = handle_health();

    assert_eq!(response.status, 200);
    assert_eq!(
        response.headers,
        vec![("content-type".to_string(), "application/json".to_string())]
    );
    assert_eq!(response.body, r#"{"status":"healthy"}"#);
}

#[test]
fn test_handle_not_found() {
    let response = handle_not_found();

    assert_eq!(response.status, 404);
    assert_eq!(
        response.headers,
        vec![("content-type".to_string(), "application/json".to_string())]
    );
    assert_eq!(response.body, r#"{"error":"Not Found"}"#);
}

#[test]
fn routes_by_method_and_path() {
    assert_eq!(route("GET", "/health"), Route::Health);
    assert_eq!(route("POST", "/invoke"), Route::Invoke);
    // The gateway only calls /invoke with POST: anything else is not found.
    assert_eq!(route("GET", "/invoke"), Route::NotFound);
    assert_eq!(route("POST", "/health"), Route::NotFound);
    assert_eq!(route("GET", "/unknown"), Route::NotFound);
}

#[test]
fn custom_header_names() {
    assert_eq!(CustomHeader::FunctionName.as_ref(), "x-function-name");
    assert_eq!(CustomHeader::LambdaPort.as_ref(), "x-lambda-port");
    assert_eq!(CustomHeader::ErrorType.as_ref(), "x-error-type");
    assert_eq!(CustomHeader::HandlerVersion.as_ref(), "x-handler-version");
    assert_eq!(CustomHeader::ProcessingDelayMs.as_ref(), "x-processing-delay-ms");
    assert_eq!(CustomHeader::LambdaRequestId.as_ref(), "x-lambda-request-id");
    assert_eq!(CustomHeader::LambdaExecutionTimeMs.as_ref(), "x-lambda-execution-time-ms");
    assert_eq!(CustomHeader::LambdaPort.to_string(), "x-lambda-port");
}

#[test]
fn request_id_header_is_hyphenated_lower_hex() {
    let handler = LambdaHandler::new(Arc::new(()));
    for (id, text) in [
        (0u128, "00000000-0000-0000-0000-000000000000"),
        (u128::MAX, "ffffffff-ffff-ffff-ffff-ffffffffffff"),
        (0x0123_4567_89ab_cdef_0011_2233_4455_6677, "01234567-89ab-cdef-0011-223344556677"),
    ] {
        let r = LambdaResponse {
            status_code: 200,
            headers: None,
            body: String::new(),
            request_id: id,
            execution_time_ms: 0,
        };
        let plan = handler.build_http_response(r).unwrap();
        assert_eq!(plan.headers[0], ("x-lambda-request-id".to_string(), text.to_string()));
        assert_eq!(plan.headers[1], ("x-lambda-execution-time-ms".to_string(), "0".to_string()));
    }
}

fn response(headers: Option<Vec<(&str, &str)>>) -> LambdaResponse {
    LambdaResponse {
        status_code: 201,
        headers: headers.map(|h| h.into_iter().map(|(n, v)| (n.to_string(), v.to_string())).collect()),
        body: "payload".to_string(),
        request_id: 0x123e4567_e89b_12d3_a456_426614174000,
        execution_time_ms: 1234,
    }
}

fn pairs(v: &[(&str, &str)]) -> Vec<(String, String)> {
    v.iter().map(|(n, v)| (n.to_string(), v.to_string())).collect()
}

#[test]
fn http_response_adds_metadata_and_default_content_type() {
    let handler = LambdaHandler::new(Arc::new(()));
    let plan = handler.build_http_response(response(Some(vec![("x-custom", "1")]))).unwrap();
    assert_eq!(plan.status, 201);
    assert_eq!(plan.body, "payload");
    assert_eq!(
        plan.headers,
        pairs(&[
            ("x-lambda-request-id", "123e4567-e89b-12d3-a456-426614174000"),
            ("x-lambda-execution-time-ms", "1234"),
            ("x-custom", "1"),
            ("content-type", "application/json"),
        ])
    );
}

#[test]
fn http_response_keeps_the_functions_content_type() {
    let handler = LambdaHandler::new(Arc::new(()));
    let plan = handler.build_http_response(response(Some(vec![("Content-Type", "text/plain")]))).unwrap();
    assert_eq!(
        plan.headers,
        pairs(&[
            ("x-lambda-request-id", "123e4567-e89b-12d3-a456-426614174000"),
            ("x-lambda-execution-time-ms", "1234"),
            ("Content-Type", "text/plain"),
        ])
    );
    let plan = handler.build_http_response(response(None)).unwrap();
    assert_eq!(plan.headers.len(), 3);
    assert_eq!(plan.headers[2], ("content-type".to_string(), "application/json".to_string()));
}

#[test]
fn error_response_wraps_the_error_text_in_json() {
    let handler = LambdaHandler::new(Arc::new(()));
    let error = RuntimeError::RequestParsing("Failed to parse LambdaRequest JSON: \"x\"".to_string());
    let plan = handler.error_response(&error);
    assert_eq!(plan.status, 500);
    assert_eq!(plan.headers, pairs(&[("content-type", "application/json")]));
    assert_eq!(
        plan.body,
        r#"{"error":"Request parsing error: Failed to parse LambdaRequest JSON: \"x\""}"#
    );
}

#[test]
fn finalize_overrides_time_and_request_id() {
    let r = finalize_response(response(None), 42, 7);
    assert_eq!(r.request_id, 42);
    assert_eq!(r.execution_time_ms, 7);
    assert_eq!(r.status_code, 201);
    assert_eq!(r.body, "payload");
}

#[test]
fn http_response_refuses_an_invalid_status() {
    let handler = LambdaHandler::new(Arc::new(()));
    let mut r = response(None);
    r.status_code = 1000;
    match handler.build_http_response(r) {
        Err(RuntimeError::ResponseBuilding(m)) => assert_eq!(m, "Failed to build response: invalid status code"),
        other => panic!("unexpected {:?}", other),
    }
    let mut r = response(None);
    r.status_code = 99;
    assert!(handler.build_http_response(r).is_err());
    let mut r = response(None);
    r.status_code = 999;
    assert_eq!(handler.build_http_response(r).unwrap().status, 999);
}

#[test]
fn http_response_refuses_invalid_headers() {
    let handler = LambdaHandler::new(Arc::new(()));
    match handler.build_http_response(response(Some(vec![("x-ok", "1"), ("bad header", "1")]))) {
        Err(RuntimeError::ResponseBuilding(m)) => assert_eq!(m, "Failed to build response: invalid HTTP header name"),
        other => panic!("unexpected {:?}", other),
    }
    match handler.build_http_response(response(Some(vec![("x-value", "line\nbreak")]))) {
        Err(RuntimeError::ResponseBuilding(m)) => assert_eq!(m, "Failed to build response: failed to parse header value"),
        other => panic!("unexpected {:?}", other),
    }
    // The first refusal wins: here a bad value comes before a bad name.
    match handler.build_http_response(response(Some(vec![("x-value", "\u{7f}"), ("bad header", "1")]))) {
        Err(RuntimeError::ResponseBuilding(m)) => assert_eq!(m, "Failed to build response: failed to parse header value"),
        other => panic!("unexpected {:?}", other),
    }
    // Tabs and characters beyond ASCII are accepted in values.
    let plan = handler.build_http_response(response(Some(vec![("x-value", "caf\u{e9}\tok")]))).unwrap();
    assert_eq!(plan.headers[2], ("x-value".to_string(), "caf\u{e9}\tok".to_string()));
}

#[test]
fn error_response_escapes_control_characters() {
    let handler = LambdaHandler::new(Arc::new(()));
    let error = RuntimeError::HandlerError("tab\there\\ \u{1}\u{8}\u{c}\r\n\u{7f}\u{e9}".to_string());
    let plan = handler.error_response(&error);
    assert_eq!(plan.body, "{\"error\":\"Handler error: tab\\there\\\\ \\u0001\\b\\f\\r\\n\u{7f}\u{e9}\"}");
}

#[test]
fn header_refusal_checks_the_name_first() {
    assert_eq!(header_refusal(false, false), Some("invalid HTTP header name"));
    assert_eq!(header_refusal(false, true), Some("invalid HTTP header name"));
    assert_eq!(header_refusal(true, false), Some("failed to parse header value"));
    assert_eq!(header_refusal(true, true), None);
}
