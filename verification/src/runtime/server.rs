use crate::runtime::models::{pairs_view, HttpResponsePlan};
use crate::text::str_eq;
use std::sync::Arc;
use vstd::prelude::*;
use vstd::string::StringExecFns;

verus! {

/// Where a request to the runtime goes.
#[derive(Debug, Clone, Copy, PartialEq, Eq, Structural)]
pub enum Route {
    /// `GET /health`
    Health,
    /// `POST /invoke`: the gateway's invocation with a request as JSON
    Invoke,
    /// Anything else
    NotFound,
}

/// Routes a request by its method and path.
pub fn route(method: &str, path: &str) -> (r: Route)
    ensures
        r == (if method@ == "GET"@ && path@ == "/health"@ {
            Route::Health
        } else if method@ == "POST"@ && path@ == "/invoke"@ {
            Route::Invoke
        } else {
            Route::NotFound
        }),
{
    if str_eq(method, "GET") && str_eq(path, "/health") {
        Route::Health
    } else if str_eq(method, "POST") && str_eq(path, "/invoke") {
        Route::Invoke
    } else {
        Route::NotFound
    }
}

/// Handle health check requests: status 200 and `{"status":"healthy"}` as JSON.
pub fn handle_health() -> (r: HttpResponsePlan)
    ensures
        r.status == 200,
        pairs_view(r.headers@) == seq![("content-type"@, "application/json"@)],
        r.body@ == "{\"status\":\"healthy\"}"@,
{
    let mut headers: Vec<(String, String)> = Vec::new();
    headers.push((String::from_str("content-type"), String::from_str("application/json")));
    assert(pairs_view(headers@) =~= seq![("content-type"@, "application/json"@)]);
    HttpResponsePlan { status: 200, headers, body: String::from_str("{\"status\":\"healthy\"}") }
}

/// Handle 404 Not Found: status 404 and `{"error":"Not Found"}` as JSON.
pub fn handle_not_found() -> (r: HttpResponsePlan)
    ensures
        r.status == 404,
        pairs_view(r.headers@) == seq![("content-type"@, "application/json"@)],
        r.body@ == "{\"error\":\"Not Found\"}"@,
{
    let mut headers: Vec<(String, String)> = Vec::new();
    headers.push((String::from_str("content-type"), String::from_str("application/json")));
    assert(pairs_view(headers@) =~= seq![("content-type"@, "application/json"@)]);
    HttpResponsePlan { status: 404, headers, body: String::from_str("{\"error\":\"Not Found\"}") }
}

/// Lambda server that handles HTTP requests and routes them to user handlers
pub struct LambdaServer<F> {
    port: u16,
    handler: Arc<F>,
}

impl<F> LambdaServer<F> {
    pub closed spec fn spec_port(&self) -> u16 {
        self.port
    }

    pub closed spec fn spec_handler(&self) -> F {
        *self.handler
    }

    /// Create a new Lambda server
    pub fn new(port: u16, handler: F) -> (r: Self)
        ensures
            r.spec_port() == port,
            r.spec_handler() == handler,
    {
        Self { port, handler: Arc::new(handler) }
    }

    /// The port the server listens on.
    pub fn port(&self) -> (p: u16)
        ensures
            p == self.spec_port(),
    {
        self.port
    }

    /// The function that answers invocations.
    pub fn handler(&self) -> (h: &Arc<F>)
        ensures
            **h == self.spec_handler(),
    {
        &self.handler
    }
}

} // verus!
