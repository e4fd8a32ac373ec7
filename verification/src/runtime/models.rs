//! The request and response exchanged between the gateway and a function.

use vstd::prelude::*;

verus! {

/// A request from the gateway to a function.
#[derive(Debug, Clone)]
pub struct LambdaRequest {
    /// Unique identifier for tracking this specific request through the system
    pub request_id: u128,
    /// HTTP verb (GET, POST, PUT, DELETE, etc.) indicating the type of operation
    pub method: String,
    /// URL path portion (e.g., "/api/users/123") without query parameters
    pub path: String,
    /// URL query string parameters as key-value pairs; they come from a map,
    /// so each key occurs once (`distinct_keys`)
    pub query_parameters: Vec<(String, String)>,
    /// HTTP headers as key-value pairs; they come from a map, so each key
    /// occurs once (`distinct_keys`)
    pub headers: Vec<(String, String)>,
    /// Request body content as a string
    pub body: String,
    /// Client's IP address if available
    pub remote_addr: Option<String>,
    /// When this request was received, in UTC, as RFC 3339 text
    pub timestamp: String,
}

/// A response from a function back to the gateway.
#[derive(Debug, Clone)]
pub struct LambdaResponse {
    /// HTTP status code indicating request outcome
    pub status_code: u16,
    /// Optional response headers as key-value pairs, each key once
    /// (`distinct_keys`) where they come from a map
    pub headers: Option<Vec<(String, String)>>,
    /// Response body content as a string
    pub body: String,
    /// Matching request ID for correlating this response with the original request
    pub request_id: u128,
    /// How long the request took to process, in milliseconds
    pub execution_time_ms: u64,
}

/// An HTTP response as the runtime sends it: status, headers in order, body.
#[derive(Debug, Clone)]
pub struct HttpResponsePlan {
    pub status: u16,
    pub headers: Vec<(String, String)>,
    pub body: String,
}

/// Whether no key occurs twice among the pairs, as in the map they stand for.
pub open spec fn distinct_keys(ps: Seq<(Seq<char>, Seq<char>)>) -> bool {
    forall|i: int, j: int| 0 <= i < j < ps.len() ==> #[trigger] ps[i].0 != #[trigger] ps[j].0
}

/// Header pairs as character sequences.
pub open spec fn pairs_view(v: Seq<(String, String)>) -> Seq<(Seq<char>, Seq<char>)> {
    v.map_values(|p: (String, String)| (p.0@, p.1@))
}

} // verus!
