//! The example function: its simulated failures and delays, and the
//! responses it sends.

use crate::json::{
    json_escaped, json_member, json_object, json_quoted, json_string, json_string_map, member_text, object_text, push_text,
    string_map_text, texts,
};
use crate::runtime::handler::{names_content_type, uuid_hyphenated, uuid_text};
use crate::runtime::headers::CustomHeader;
use crate::runtime::models::{distinct_keys, pairs_view, LambdaRequest, LambdaResponse};
use crate::text::{ascii_lower, decimal, decimal_string};
use rand::Rng;
use vstd::prelude::*;
use vstd::string::StringExecFns;

verus! {

/// The function's name, as it reports it.
pub const FUNCTION_NAME: &'static str = "hello-lambda";

/// The function's version, as it reports it.
pub const HANDLER_VERSION: &'static str = "1.0.0";

/// `rand::Rng::gen_range` on `1..=100` draws a value of that range.
#[verifier::external_body]
fn roll_percent() -> (r: u32)
    ensures
        1 <= r <= 100,
{
    rand::thread_rng().gen_range(1..=100)
}

/// `rand::Rng::gen_range` on `1000..=3000` draws a value of that range.
#[verifier::external_body]
fn draw_delay_ms() -> (r: u64)
    ensures
        1000 <= r <= 3000,
{
    rand::thread_rng().gen_range(1000..=3000)
}

/// Whether a roll of 1 to 100 means a simulated panic: 2 rolls in 100.
pub fn panics_on_roll(roll: u32) -> (r: bool)
    ensures
        r == (roll <= 2),
{
    roll <= 2
}

/// Whether a roll of 1 to 100 means a simulated error: 8 rolls in 100.
pub fn errors_on_roll(roll: u32) -> (r: bool)
    ensures
        r == (roll <= 8),
{
    roll <= 8
}

/// What the echo function does with a request: panic, answer with a
/// simulated server error, or do its simulated work and answer with success.
#[derive(Debug, Clone, Copy, PartialEq, Eq, Structural)]
pub enum EchoStep {
    Panic,
    Error,
    Work,
}

/// The echo function's choice once the panic and error draws are made: a
/// panic draw wins, then an error draw; with neither, the work is done.
pub fn echo_step(panics: bool, errors: bool) -> (r: EchoStep)
    ensures
        panics ==> r is Panic,
        !panics && errors ==> r is Error,
        !panics && !errors ==> r is Work,
{
    if panics {
        EchoStep::Panic
    } else if errors {
        EchoStep::Error
    } else {
        EchoStep::Work
    }
}

/// Returns true 2% of the time (panic simulation)
pub fn should_panic() -> bool {
    panics_on_roll(roll_percent())
}

/// Returns true 8% of the time (error simulation)
pub fn should_error() -> bool {
    errors_on_roll(roll_percent())
}

/// Returns a random delay between 1 and 3 seconds, in milliseconds
pub fn get_random_delay() -> (ms: u64)
    ensures
        1000 <= ms <= 3000,
{
    draw_delay_ms()
}

/// The headers of a successful answer on `port` after `processing_delay_ms`.
pub open spec fn success_headers(port: u16, processing_delay_ms: u64) -> Seq<(Seq<char>, Seq<char>)> {
    seq![
        ("content-type"@, "application/json"@),
        (CustomHeader::FunctionName.name(), FUNCTION_NAME@),
        (CustomHeader::LambdaPort.name(), decimal(port as nat)),
        (CustomHeader::ProcessingDelayMs.name(), decimal(processing_delay_ms as nat)),
        (CustomHeader::HandlerVersion.name(), HANDLER_VERSION@),
    ]
}

/// The headers of a simulated server error on `port`.
pub open spec fn error_headers(port: u16) -> Seq<(Seq<char>, Seq<char>)> {
    seq![
        ("content-type"@, "application/json"@),
        (CustomHeader::FunctionName.name(), FUNCTION_NAME@),
        (CustomHeader::LambdaPort.name(), decimal(port as nat)),
        (CustomHeader::ErrorType.name(), "simulated"@),
        (CustomHeader::HandlerVersion.name(), HANDLER_VERSION@),
    ]
}

/// `null`, or the JSON string of the text.
pub open spec fn json_optional_string(a: Option<String>) -> Seq<char> {
    match a {
        Some(s) => json_string(s@),
        None => "null"@,
    }
}

/// The body of a successful answer, as serde_json writes the object that
/// the function builds: the status, an echo of the request, the metadata of
/// the simulated work and the server information, every object with its
/// keys in increasing order. The request's query parameters and headers
/// become objects of their own, each key with its last value.
pub open spec fn success_body_text(
    req: LambdaRequest,
    processing_delay_ms: u64,
    port: u16,
    response_time: Seq<char>,
) -> Seq<char> {
    json_object(
        seq![
            json_member("echo"@, json_object(echo_members(req))),
            json_member("metadata"@, json_object(success_metadata_members(processing_delay_ms))),
            json_member("server_info"@, json_object(success_server_members(port, response_time))),
            json_member("status"@, json_string("success"@)),
        ],
    )
}

/// The body of a simulated server error for the request `request_id` at
/// `timestamp`, as serde_json writes the object that the function builds,
/// keys in increasing order.
pub open spec fn error_body_text(request_id: u128, timestamp: Seq<char>, port: u16) -> Seq<char> {
    json_object(
        seq![
            json_member("error"@, json_object(error_members(request_id, timestamp))),
            json_member("metadata"@, json_object(error_metadata_members())),
            json_member("server_info"@, json_object(error_server_members(port))),
            json_member("status"@, json_string("error"@)),
        ],
    )
}

/// The member `"key":"text"`, the text written as a JSON string.
fn string_member(key: &str, text: &str) -> (r: String)
    ensures
        r@ == json_member(key@, json_string(text@)),
{
    let quoted = json_quoted(text);
    member_text(key, quoted.as_str())
}

/// The JSON text of a whole number.
fn number_text(n: u64) -> (r: String)
    ensures
        r@ == decimal(n as nat),
{
    decimal_string(n)
}

/// The members of the echo of `req`, keys in increasing order.
pub open spec fn echo_members(req: LambdaRequest) -> Seq<Seq<char>> {
    seq![
        json_member("body"@, json_string(req.body@)),
        json_member("headers"@, json_string_map(pairs_view(req.headers@))),
        json_member("method"@, json_string(req.method@)),
        json_member("path"@, json_string(req.path@)),
        json_member("query_parameters"@, json_string_map(pairs_view(req.query_parameters@))),
        json_member("remote_addr"@, json_optional_string(req.remote_addr)),
        json_member("request_id"@, json_string(uuid_hyphenated(req.request_id))),
        json_member("timestamp"@, json_string(req.timestamp@)),
    ]
}

/// The members of the metadata of a successful answer.
pub open spec fn success_metadata_members(processing_delay_ms: u64) -> Seq<Seq<char>> {
    seq![
        json_member("handler_version"@, json_string(HANDLER_VERSION@)),
        json_member("processing_delay_ms"@, decimal(processing_delay_ms as nat)),
        json_member("simulated_work"@, "true"@),
    ]
}

/// The members of the server information of a successful answer.
pub open spec fn success_server_members(port: u16, response_time: Seq<char>) -> Seq<Seq<char>> {
    seq![
        json_member("function_name"@, json_string(FUNCTION_NAME@)),
        json_member("port"@, decimal(port as nat)),
        json_member("response_time"@, json_string(response_time)),
        json_member("runtime"@, json_string("custom-rust-runtime"@)),
    ]
}

fn echo_text(req: &LambdaRequest) -> (r: String)
    ensures
        r@ == json_object(echo_members(*req)),
{
    let mut m: Vec<String> = Vec::new();
    push_text(&mut m, string_member("body", req.body.as_str()));
    let headers = string_map_text(&req.headers);
    push_text(&mut m, member_text("headers", headers.as_str()));
    push_text(&mut m, string_member("method", req.method.as_str()));
    push_text(&mut m, string_member("path", req.path.as_str()));
    let query = string_map_text(&req.query_parameters);
    push_text(&mut m, member_text("query_parameters", query.as_str()));
    let remote = match &req.remote_addr {
        Some(a) => json_quoted(a.as_str()),
        None => String::from_str("null"),
    };
    assert(remote@ == json_optional_string(req.remote_addr));
    push_text(&mut m, member_text("remote_addr", remote.as_str()));
    let id = uuid_text(req.request_id);
    push_text(&mut m, string_member("request_id", id.as_str()));
    push_text(&mut m, string_member("timestamp", req.timestamp.as_str()));
    assert(texts(m@) =~= echo_members(*req));
    object_text(&m)
}

fn success_metadata_text(processing_delay_ms: u64) -> (r: String)
    ensures
        r@ == json_object(success_metadata_members(processing_delay_ms)),
{
    let mut m: Vec<String> = Vec::new();
    push_text(&mut m, string_member("handler_version", HANDLER_VERSION));
    let delay = number_text(processing_delay_ms);
    push_text(&mut m, member_text("processing_delay_ms", delay.as_str()));
    push_text(&mut m, member_text("simulated_work", "true"));
    assert(texts(m@) =~= success_metadata_members(processing_delay_ms));
    object_text(&m)
}

fn success_server_text(port: u16, response_time: &str) -> (r: String)
    ensures
        r@ == json_object(success_server_members(port, response_time@)),
{
    let mut m: Vec<String> = Vec::new();
    push_text(&mut m, string_member("function_name", FUNCTION_NAME));
    let port_text = number_text(port as u64);
    push_text(&mut m, member_text("port", port_text.as_str()));
    push_text(&mut m, string_member("response_time", response_time));
    push_text(&mut m, string_member("runtime", "custom-rust-runtime"));
    assert(texts(m@) =~= success_server_members(port, response_time@));
    object_text(&m)
}

/// The body of a successful answer to `req` after `processing_delay_ms`,
/// sent from `port` at `response_time`.
pub fn success_body(req: &LambdaRequest, processing_delay_ms: u64, port: u16, response_time: &str) -> (r: String)
    ensures
        r@ == success_body_text(*req, processing_delay_ms, port, response_time@),
{
    let echo = echo_text(req);
    let metadata = success_metadata_text(processing_delay_ms);
    let server_info = success_server_text(port, response_time);
    let mut top: Vec<String> = Vec::new();
    push_text(&mut top, member_text("echo", echo.as_str()));
    push_text(&mut top, member_text("metadata", metadata.as_str()));
    push_text(&mut top, member_text("server_info", server_info.as_str()));
    push_text(&mut top, string_member("status", "success"));
    assert(texts(top@) =~= seq![
        json_member("echo"@, json_object(echo_members(*req))),
        json_member("metadata"@, json_object(success_metadata_members(processing_delay_ms))),
        json_member("server_info"@, json_object(success_server_members(port, response_time@))),
        json_member("status"@, json_string("success"@)),
    ]);
    object_text(&top)
}

/// The members of the error object of a simulated server error.
pub open spec fn error_members(request_id: u128, timestamp: Seq<char>) -> Seq<Seq<char>> {
    seq![
        json_member("code"@, json_string("INTERNAL_SERVER_ERROR"@)),
        json_member("details"@, json_string("This is a randomly generated error for testing purposes"@)),
        json_member("message"@, json_string("Simulated server error occurred"@)),
        json_member("request_id"@, json_string(uuid_hyphenated(request_id))),
        json_member("timestamp"@, json_string(timestamp)),
    ]
}

/// The members of the metadata of a simulated server error.
pub open spec fn error_metadata_members() -> Seq<Seq<char>> {
    seq![
        json_member("error_simulation"@, "true"@),
        json_member("handler_version"@, json_string(HANDLER_VERSION@)),
    ]
}

/// The members of the server information of a simulated server error.
pub open spec fn error_server_members(port: u16) -> Seq<Seq<char>> {
    seq![
        json_member("function_name"@, json_string(FUNCTION_NAME@)),
        json_member("port"@, decimal(port as nat)),
        json_member("runtime"@, json_string("custom-rust-runtime"@)),
    ]
}

fn error_object_text(request_id: u128, timestamp: &str) -> (r: String)
    ensures
        r@ == json_object(error_members(request_id, timestamp@)),
{
    let mut m: Vec<String> = Vec::new();
    push_text(&mut m, string_member("code", "INTERNAL_SERVER_ERROR"));
    push_text(&mut m, string_member("details", "This is a randomly generated error for testing purposes"));
    push_text(&mut m, string_member("message", "Simulated server error occurred"));
    let id = uuid_text(request_id);
    push_text(&mut m, string_member("request_id", id.as_str()));
    push_text(&mut m, string_member("timestamp", timestamp));
    assert(texts(m@) =~= error_members(request_id, timestamp@));
    object_text(&m)
}

fn error_metadata_text() -> (r: String)
    ensures
        r@ == json_object(error_metadata_members()),
{
    let mut m: Vec<String> = Vec::new();
    push_text(&mut m, member_text("error_simulation", "true"));
    push_text(&mut m, string_member("handler_version", HANDLER_VERSION));
    assert(texts(m@) =~= error_metadata_members());
    object_text(&m)
}

fn error_server_text(port: u16) -> (r: String)
    ensures
        r@ == json_object(error_server_members(port)),
{
    let mut m: Vec<String> = Vec::new();
    push_text(&mut m, string_member("function_name", FUNCTION_NAME));
    let port_text = number_text(port as u64);
    push_text(&mut m, member_text("port", port_text.as_str()));
    push_text(&mut m, string_member("runtime", "custom-rust-runtime"));
    assert(texts(m@) =~= error_server_members(port));
    object_text(&m)
}

/// The body of a simulated server error for the request `request_id`,
/// sent from `port` at `timestamp`.
pub fn error_body(request_id: u128, timestamp: &str, port: u16) -> (r: String)
    ensures
        r@ == error_body_text(request_id, timestamp@, port),
{
    let error = error_object_text(request_id, timestamp);
    let metadata = error_metadata_text();
    let server_info = error_server_text(port);
    let mut top: Vec<String> = Vec::new();
    push_text(&mut top, member_text("error", error.as_str()));
    push_text(&mut top, member_text("metadata", metadata.as_str()));
    push_text(&mut top, member_text("server_info", server_info.as_str()));
    push_text(&mut top, string_member("status", "error"));
    assert(texts(top@) =~= seq![
        json_member("error"@, json_object(error_members(request_id, timestamp@))),
        json_member("metadata"@, json_object(error_metadata_members())),
        json_member("server_info"@, json_object(error_server_members(port))),
        json_member("status"@, json_string("error"@)),
    ]);
    object_text(&top)
}

/// The headers of a successful answer name five different headers.
proof fn lemma_success_headers_distinct(port: u16, processing_delay_ms: u64)
    ensures
        distinct_keys(success_headers(port, processing_delay_ms)),
{
    reveal_strlit("content-type");
    reveal_strlit("x-function-name");
    reveal_strlit("x-lambda-port");
    reveal_strlit("x-processing-delay-ms");
    reveal_strlit("x-handler-version");
    let h = success_headers(port, processing_delay_ms);
    assert(h[0].0[0] == 'c' && h[1].0[2] == 'f' && h[2].0[2] == 'l' && h[3].0[2] == 'p' && h[4].0[2] == 'h');
}

/// The headers of a simulated server error name five different headers.
proof fn lemma_error_headers_distinct(port: u16)
    ensures
        distinct_keys(error_headers(port)),
{
    reveal_strlit("content-type");
    reveal_strlit("x-function-name");
    reveal_strlit("x-lambda-port");
    reveal_strlit("x-error-type");
    reveal_strlit("x-handler-version");
    let h = error_headers(port);
    assert(h[0].0[0] == 'c' && h[1].0[2] == 'f' && h[2].0[2] == 'l' && h[3].0[2] == 'e' && h[4].0[2] == 'h');
}

/// Create a successful echo response to `req` after `processing_delay_ms`,
/// sent from `port` at `response_time`. The runtime overrides the
/// execution time.
pub fn create_success_response(req: LambdaRequest, processing_delay_ms: u64, port: u16, response_time: &str) -> (r:
    LambdaResponse)
    ensures
        r.status_code == 200,
        r.headers is Some,
        pairs_view(r.headers->Some_0@) == success_headers(port, processing_delay_ms),
        distinct_keys(pairs_view(r.headers->Some_0@)),
        r.body@ == success_body_text(req, processing_delay_ms, port, response_time@),
        r.request_id == req.request_id,
        r.execution_time_ms == 0,
{
    let body = success_body(&req, processing_delay_ms, port, response_time);
    let mut headers: Vec<(String, String)> = Vec::new();
    headers.push((String::from_str("content-type"), String::from_str("application/json")));
    headers.push((CustomHeader::FunctionName.to_string(), String::from_str(FUNCTION_NAME)));
    headers.push((CustomHeader::LambdaPort.to_string(), decimal_string(port as u64)));
    headers.push((CustomHeader::ProcessingDelayMs.to_string(), decimal_string(processing_delay_ms)));
    headers.push((CustomHeader::HandlerVersion.to_string(), String::from_str(HANDLER_VERSION)));
    assert(pairs_view(headers@) =~= success_headers(port, processing_delay_ms));
    proof {
        lemma_success_headers_distinct(port, processing_delay_ms);
    }
    LambdaResponse {
        status_code: 200,
        headers: Some(headers),
        body,
        request_id: req.request_id,
        execution_time_ms: 0,
    }
}

/// Create an error response for simulated server errors on the request
/// `request_id`, sent from `port` at `timestamp`.
pub fn create_error_response(request_id: u128, port: u16, timestamp: &str) -> (r: LambdaResponse)
    ensures
        r.status_code == 500,
        r.headers is Some,
        pairs_view(r.headers->Some_0@) == error_headers(port),
        distinct_keys(pairs_view(r.headers->Some_0@)),
        r.body@ == error_body_text(request_id, timestamp@, port),
        r.request_id == request_id,
        r.execution_time_ms == 0,
{
    let body = error_body(request_id, timestamp, port);
    let mut headers: Vec<(String, String)> = Vec::new();
    headers.push((String::from_str("content-type"), String::from_str("application/json")));
    headers.push((CustomHeader::FunctionName.to_string(), String::from_str(FUNCTION_NAME)));
    headers.push((CustomHeader::LambdaPort.to_string(), decimal_string(port as u64)));
    headers.push((CustomHeader::ErrorType.to_string(), String::from_str("simulated")));
    headers.push((CustomHeader::HandlerVersion.to_string(), String::from_str(HANDLER_VERSION)));
    assert(pairs_view(headers@) =~= error_headers(port));
    proof {
        lemma_error_headers_distinct(port);
    }
    LambdaResponse { status_code: 500, headers: Some(headers), body, request_id, execution_time_ms: 0 }
}

/// The JSON text of an optional address is `null` exactly when there is no
/// address; an address is written as its JSON string, which starts with a
/// quote and holds at least as many characters as the address.
pub proof fn lemma_optional_string_is_null_only_when_absent(a: Option<String>)
    ensures
        (json_optional_string(a) == "null"@) <==> a is None,
        a matches Some(s) ==> json_optional_string(a) == json_string(s@) && json_optional_string(a)[0] == '"'
            && json_optional_string(a).len() >= s@.len() + 2,
{
    reveal_strlit("null");
    if let Some(s) = a {
        lemma_json_escaped_len(s@);
        let t = json_optional_string(a);
        assert(t[0] == '"');
        assert("null"@[0] == 'n');
    }
}

/// Escaping never shortens a text.
proof fn lemma_json_escaped_len(s: Seq<char>)
    ensures
        json_escaped(s).len() >= s.len(),
    decreases s.len(),
{
    if s.len() > 0 {
        lemma_json_escaped_len(s.drop_last());
    }
}

/// The echo of a request shows the client's address: its `remote_addr`
/// member is `null` exactly when the request has no address, and otherwise
/// the address as a JSON string.
pub proof fn lemma_echo_shows_remote_addr(req: LambdaRequest)
    ensures
        echo_members(req)[5] == json_member("remote_addr"@, json_optional_string(req.remote_addr)),
        (json_optional_string(req.remote_addr) == "null"@) <==> req.remote_addr is None,
        req.remote_addr matches Some(a) ==> json_optional_string(req.remote_addr) == json_string(a@),
{
    lemma_optional_string_is_null_only_when_absent(req.remote_addr);
}

/// Each answer of the example function declares its JSON body: the first
/// header is `content-type: application/json`, no other header is a
/// content type in any letter case, so the runtime adds no second one.
pub proof fn lemma_example_answers_declare_json(port: u16, processing_delay_ms: u64)
    ensures
        ascii_lower(success_headers(port, processing_delay_ms)[0].0) == "content-type"@,
        success_headers(port, processing_delay_ms)[0].1 == "application/json"@,
        forall|i: int|
            1 <= i < success_headers(port, processing_delay_ms).len() ==> ascii_lower(
                #[trigger] success_headers(port, processing_delay_ms)[i].0,
            ) != "content-type"@,
        ascii_lower(error_headers(port)[0].0) == "content-type"@,
        error_headers(port)[0].1 == "application/json"@,
        forall|i: int|
            1 <= i < error_headers(port).len() ==> ascii_lower(#[trigger] error_headers(port)[i].0)
                != "content-type"@,
        names_content_type(success_headers(port, processing_delay_ms)),
        names_content_type(error_headers(port)),
{
    reveal_strlit("content-type");
    reveal_strlit("application/json");
    reveal_strlit("x-function-name");
    reveal_strlit("x-lambda-port");
    reveal_strlit("x-processing-delay-ms");
    reveal_strlit("x-error-type");
    reveal_strlit("x-handler-version");
    let ct = "content-type"@;
    assert(ascii_lower(ct) =~= ct);
    let sh = success_headers(port, processing_delay_ms);
    let eh = error_headers(port);
    assert forall|i: int| 1 <= i < sh.len() implies ascii_lower(#[trigger] sh[i].0) != ct by {
        assert(sh[i].0[0] == 'x');
        assert(ascii_lower(sh[i].0)[0] == 'x');
    }
    assert forall|i: int| 1 <= i < eh.len() implies ascii_lower(#[trigger] eh[i].0) != ct by {
        assert(eh[i].0[0] == 'x');
        assert(ascii_lower(eh[i].0)[0] == 'x');
    }
    assert(ascii_lower(sh[0].0) == ct);
    assert(ascii_lower(eh[0].0) == ct);
}

} // verus!
