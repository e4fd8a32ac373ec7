use crate::runtime::error::RuntimeError;
use crate::runtime::headers::CustomHeader;
use crate::runtime::models::{pairs_view, HttpResponsePlan, LambdaResponse};
use crate::json::{json_quoted, json_string};
use crate::text::{append_decimal, ascii_lower, decimal, digit_char, eq_ascii_lowercase, hex_digit};
use std::sync::Arc;
use vstd::prelude::*;
use vstd::string::StringExecFns;

verus! {

/// The hyphenated lower-case text of the UUID whose 128-bit big-endian value
/// is `id`: 32 hexadecimal digits, most significant first, in groups of
/// 8, 4, 4, 4 and 12 separated by `-`.
pub open spec fn uuid_hyphenated(id: u128) -> Seq<char> {
    let hex = Seq::new(32, |i: int| hex_digit(((id >> ((4 * (31 - i)) as u128)) & 15u128) as nat));
    hex.subrange(0, 8) + seq!['-'] + hex.subrange(8, 12) + seq!['-'] + hex.subrange(12, 16)
        + seq!['-'] + hex.subrange(16, 20) + seq!['-'] + hex.subrange(20, 32)
}

/// `uuid::Uuid::from_u128` takes the value as big-endian bytes, and the
/// UUID's `Display` writes the hyphenated lower-case form.
#[verifier::external_body]
pub(crate) fn uuid_text(id: u128) -> (s: String)
    ensures
        s@ == uuid_hyphenated(id),
{
    uuid::Uuid::from_u128(id).to_string()
}

/// The JSON object `{"error":<quoted_text>}` for an already quoted JSON string.
pub fn error_body(quoted_text: &str) -> (r: String)
    ensures
        r@ == "{\"error\":"@ + quoted_text@ + "}"@,
{
    let mut body = String::from_str("{\"error\":");
    body.append(quoted_text);
    body.append("}");
    body
}

/// Whether a header name is `content-type` in any letter case.
///
/// Unicode lower-casing maps no character other than the ASCII capitals onto
/// the letters of `content-type`, so this equals comparing the name's
/// `to_lowercase()` with `content-type`.
pub open spec fn is_content_type(name: Seq<char>) -> bool {
    ascii_lower(name) == "content-type"@
}

/// The headers that the function itself set on `r`, in order.
pub open spec fn user_headers(r: LambdaResponse) -> Seq<(Seq<char>, Seq<char>)> {
    match r.headers {
        Some(h) => pairs_view(h@),
        None => Seq::empty(),
    }
}

/// The headers of the HTTP response for `r`: the request identifier and the
/// execution time, then the function's own headers in order, then a JSON
/// content type unless the function set one.
pub open spec fn response_headers(r: LambdaResponse) -> Seq<(Seq<char>, Seq<char>)> {
    let user = user_headers(r);
    seq![
        (CustomHeader::LambdaRequestId.name(), uuid_hyphenated(r.request_id)),
        (CustomHeader::LambdaExecutionTimeMs.name(), decimal(r.execution_time_ms as nat)),
    ] + user + if exists|i: int| 0 <= i < user.len() && is_content_type(#[trigger] user[i].0) {
        Seq::empty()
    } else {
        seq![("content-type"@, "application/json"@)]
    }
}

/// Whether `http` accepts a character in a header value: every byte of its
/// UTF-8 form is a tab or at least a space and not DEL, so any character
/// from U+0080 up is accepted.
pub open spec fn header_value_char(c: char) -> bool {
    ((c as u32) >= 32 && (c as u32) != 127) || c == '\t'
}

/// Whether `http` accepts `s` as a header value.
pub open spec fn valid_header_value(s: Seq<char>) -> bool {
    forall|i: int| 0 <= i < s.len() ==> header_value_char(#[trigger] s[i])
}

/// Whether `c` is a token character of `http`'s table of header-name
/// characters: a letter, a digit, or one of ``!#$%&'*+-.^_`|~``.
pub open spec fn header_name_char(c: char) -> bool {
    ||| 'a' <= c <= 'z'
    ||| 'A' <= c <= 'Z'
    ||| '0' <= c <= '9'
    ||| c == '!' || c == '#' || c == '$' || c == '%' || c == '&' || c == '\''
    ||| c == '*' || c == '+' || c == '-' || c == '.' || c == '^' || c == '_'
    ||| c == '`' || c == '|' || c == '~'
}

/// Whether `http` accepts `s` as a header name: between 1 and 65535
/// characters, each a token character (so each one byte long).
pub open spec fn valid_header_name(s: Seq<char>) -> bool {
    &&& 0 < s.len() <= 65535
    &&& forall|i: int| 0 <= i < s.len() ==> header_name_char(#[trigger] s[i])
}

/// `http::HeaderName::try_from(String)`: accepted exactly when the text is
/// 1 to 65535 bytes long and every byte has a non-zero entry in `http`'s
/// table of header-name characters, which holds the token characters.
#[verifier::external_body]
fn header_name_ok(name: &str) -> (r: bool)
    ensures
        r == valid_header_name(name@),
{
    http::HeaderName::try_from(name.to_string()).is_ok()
}

/// `http::HeaderValue::try_from(String)`: accepted exactly when every byte
/// of the text is a tab or at least a space and not DEL.
#[verifier::external_body]
fn header_value_ok(value: &str) -> (r: bool)
    ensures
        r == valid_header_value(value@),
{
    http::HeaderValue::try_from(value.to_string()).is_ok()
}

/// The message of the first header in `h` that `http` refuses, the name of
/// each header checked before its value, if any header is refused.
pub open spec fn header_failure(h: Seq<(Seq<char>, Seq<char>)>) -> Option<Seq<char>>
    decreases h.len(),
{
    if h.len() == 0 {
        None
    } else {
        match header_failure(h.drop_last()) {
            Some(m) => Some(m),
            None => if !valid_header_name(h.last().0) {
                Some("invalid HTTP header name"@)
            } else if !valid_header_value(h.last().1) {
                Some("failed to parse header value"@)
            } else {
                None
            },
        }
    }
}

/// Whether `http`'s header map may run out of room while the response for
/// `r` is built. The map refuses a header only when it would grow past
/// 32768 slots, which it does not before it holds 6554 distinct names; so
/// with a valid status and at most 6554 headers it never refuses one. Past
/// that, whether it does depends on how the names hash.
pub open spec fn may_fill_header_map(r: LambdaResponse) -> bool {
    &&& 100 <= r.status_code <= 999
    &&& response_headers(r).len() > 6554
}

/// Why `http` refuses to build the response for `r`, if it does: a status
/// outside 100 to 999 first, then the first header that it refuses.
pub open spec fn build_failure(r: LambdaResponse) -> Option<Seq<char>> {
    if !(100 <= r.status_code <= 999) {
        Some("invalid status code"@)
    } else {
        header_failure(response_headers(r))
    }
}

/// The message with which `http` refuses a header, given whether it
/// accepts the header's name and its value: the name is checked first.
pub fn header_refusal(name_ok: bool, value_ok: bool) -> (r: Option<&'static str>)
    ensures
        !name_ok ==> (r matches Some(m) && m@ == "invalid HTTP header name"@),
        name_ok && !value_ok ==> (r matches Some(m) && m@ == "failed to parse header value"@),
        name_ok && value_ok ==> r is None,
{
    if !name_ok {
        Some("invalid HTTP header name")
    } else if !value_ok {
        Some("failed to parse header value")
    } else {
        None
    }
}

/// The first header of `headers` that `http` refuses, as its message.
fn first_refused_header(headers: &Vec<(String, String)>) -> (r: Option<&'static str>)
    ensures
        match r {
            Some(m) => header_failure(pairs_view(headers@)) == Some(m@),
            None => header_failure(pairs_view(headers@)) is None,
        },
{
    let ghost h = pairs_view(headers@);
    let n = headers.len();
    let mut i: usize = 0;
    while i < n
        invariant
            n == headers@.len(),
            h == pairs_view(headers@),
            i <= n,
            header_failure(h.take(i as int)) is None,
        decreases n - i,
    {
        proof {
            assert(h.take(i + 1).drop_last() =~= h.take(i as int));
            assert(h.take(i + 1).last() == h[i as int]);
        }
        let name_ok = header_name_ok(headers[i].0.as_str());
        let value_ok = header_value_ok(headers[i].1.as_str());
        if let Some(m) = header_refusal(name_ok, value_ok) {
            proof {
                lemma_failure_stays(h, i as int + 1);
            }
            return Some(m);
        }
        i = i + 1;
    }
    proof {
        assert(h.take(n as int) =~= h);
    }
    None
}

/// A refusal among the first `k` headers is the refusal of the whole list.
proof fn lemma_failure_stays(h: Seq<(Seq<char>, Seq<char>)>, k: int)
    requires
        0 <= k <= h.len(),
    ensures
        header_failure(h.take(k)) is Some ==> header_failure(h) == header_failure(h.take(k)),
    decreases h.len() - k,
{
    if k < h.len() {
        lemma_failure_stays(h, k + 1);
        assert(h.take(k + 1).drop_last() =~= h.take(k));
    } else {
        assert(h.take(k) =~= h);
    }
}

/// The response a function's answer becomes: the runtime's own measure of
/// the handler's time and the request's identifier replace what the handler
/// put there.
pub fn finalize_response(response: LambdaResponse, request_id: u128, elapsed_ms: u64) -> (r: LambdaResponse)
    ensures
        r == (LambdaResponse { execution_time_ms: elapsed_ms, request_id, ..response }),
{
    LambdaResponse { execution_time_ms: elapsed_ms, request_id, ..response }
}

/// Handles Lambda function invocations
pub struct LambdaHandler<F> {
    user_handler: Arc<F>,
}

impl<F> LambdaHandler<F> {
    /// The function that answers invocations.
    pub closed spec fn handler(&self) -> Arc<F> {
        self.user_handler
    }

    /// Create a new handler wrapper
    pub fn new(user_handler: Arc<F>) -> (r: Self)
        ensures
            r.handler() == user_handler,
    {
        Self { user_handler }
    }

    /// The function that answers invocations.
    pub fn user_handler(&self) -> (r: &Arc<F>)
        ensures
            *r == self.handler(),
    {
        &self.user_handler
    }

    /// Build HTTP response from LambdaResponse
    ///
    /// `http` checks the status, then each header in order; the first that
    /// it refuses makes the error `Failed to build response: ` and its
    /// message.
    pub fn build_http_response(&self, lambda_response: LambdaResponse) -> (r: Result<HttpResponsePlan, RuntimeError>)
        ensures
            build_failure(lambda_response) is None && !may_fill_header_map(lambda_response) ==> (r matches Ok(plan)
                && plan.status == lambda_response.status_code
                && pairs_view(plan.headers@) == response_headers(lambda_response)
                && plan.body == lambda_response.body),
            build_failure(lambda_response) is Some && !may_fill_header_map(lambda_response) ==> (r matches Err(
                RuntimeError::ResponseBuilding(e),
            ) && e@ == "Failed to build response: "@ + build_failure(lambda_response)->Some_0),
            may_fill_header_map(lambda_response) ==> (r matches Ok(plan)
                && build_failure(lambda_response) is None
                && plan.status == lambda_response.status_code
                && pairs_view(plan.headers@) == response_headers(lambda_response)
                && plan.body == lambda_response.body) || (r matches Err(RuntimeError::ResponseBuilding(e))
                && (build_failure(lambda_response) is Some && e@ == "Failed to build response: "@
                + build_failure(lambda_response)->Some_0 || e@ == "Failed to build response: max size reached"@)),
    {
        if lambda_response.status_code < 100 || lambda_response.status_code > 999 {
            let mut e = String::from_str("Failed to build response: ");
            e.append("invalid status code");
            proof {
                reveal_strlit("invalid status code");
            }
            return Err(RuntimeError::ResponseBuilding(e));
        }
        let mut headers: Vec<(String, String)> = Vec::new();
        headers.push(
            (String::from_str(CustomHeader::LambdaRequestId.as_ref()), uuid_text(lambda_response.request_id)),
        );
        let mut millis = String::new();
        append_decimal(&mut millis, lambda_response.execution_time_ms);
        headers.push((String::from_str(CustomHeader::LambdaExecutionTimeMs.as_ref()), millis));
        let ghost fixed = pairs_view(headers@);
        let ghost user = user_headers(lambda_response);
        let mut has_content_type = false;
        match &lambda_response.headers {
            Some(extra) => {
                let n = extra.len();
                let mut i: usize = 0;
                while i < n
                    invariant
                        n == extra@.len(),
                        i <= n,
                        user == pairs_view(extra@),
                        pairs_view(headers@) == fixed + user.take(i as int),
                        has_content_type <==> exists|j: int| 0 <= j < i && is_content_type(#[trigger] user[j].0),
                    decreases n - i,
                {
                    let name = extra[i].0.clone();
                    let value = extra[i].1.clone();
                    proof {
                        assert(user[i as int] == (name@, value@));
                    }
                    let ghost before = headers@;
                    let ghost had = has_content_type;
                    let ct = eq_ascii_lowercase(name.as_str(), "content-type");
                    if ct {
                        has_content_type = true;
                    }
                    proof {
                        assert(ct == is_content_type(user[i as int].0));
                        if has_content_type && !had {
                            assert(is_content_type(user[i as int].0));
                        }
                        if (exists|j: int| 0 <= j < i + 1 && is_content_type(#[trigger] user[j].0)) && !ct {
                            let j = choose|j: int| 0 <= j < i + 1 && is_content_type(#[trigger] user[j].0);
                            assert(j < i);
                        }
                    }
                    headers.push((name, value));
                    proof {
                        assert(headers@ == before.push((name, value)));
                        assert(pairs_view(headers@) =~= pairs_view(before).push((name@, value@)));
                        assert(user.take(i + 1) =~= user.take(i as int).push(user[i as int]));
                        assert(pairs_view(headers@) =~= fixed + user.take(i + 1));
                    }
                    i = i + 1;
                }
                proof {
                    assert(user.take(n as int) =~= user);
                }
            }
            None => {
                assert(pairs_view(headers@) =~= fixed + user);
            }
        }
        let ghost before = headers@;
        if !has_content_type {
            headers.push((String::from_str("content-type"), String::from_str("application/json")));
            assert(pairs_view(headers@) =~= pairs_view(before).push(("content-type"@, "application/json"@)));
        }
        assert(pairs_view(headers@) =~= response_headers(lambda_response));
        match first_refused_header(&headers) {
            Some(m) => {
                let mut e = String::from_str("Failed to build response: ");
                e.append(m);
                Err(RuntimeError::ResponseBuilding(e))
            },
            None => Ok(
                HttpResponsePlan { status: lambda_response.status_code, headers, body: lambda_response.body },
            ),
        }
    }

    /// Create error response: status 500 and a JSON object whose `error`
    /// member holds the error's text.
    pub fn error_response(&self, error: &RuntimeError) -> (r: HttpResponsePlan)
        ensures
            r.status == 500,
            pairs_view(r.headers@) == seq![("content-type"@, "application/json"@)],
            r.body@ == "{\"error\":"@ + json_string(error.text()) + "}"@,
    {
        let text = error.to_string();
        let quoted = json_quoted(text.as_str());
        let body = error_body(quoted.as_str());
        let mut headers: Vec<(String, String)> = Vec::new();
        headers.push((String::from_str("content-type"), String::from_str("application/json")));
        assert(pairs_view(headers@) =~= seq![("content-type"@, "application/json"@)]);
        HttpResponsePlan { status: 500, headers, body }
    }
}

/// A hexadecimal digit is a visible character.
proof fn lemma_hex_digit_visible(d: nat)
    requires
        d < 16,
    ensures
        header_value_char(hex_digit(d)),
{
    let s = seq!['0', '1', '2', '3', '4', '5', '6', '7', '8', '9', 'a', 'b', 'c', 'd', 'e', 'f'];
    assert(forall|i: int| 0 <= i < 16 ==> '0' <= #[trigger] s[i] <= 'f');
}

/// `http` accepts the text of a UUID as a header value.
proof fn lemma_uuid_text_accepted(id: u128)
    ensures
        valid_header_value(uuid_hyphenated(id)),
{
    assert forall|i: int| 0 <= i < 32 implies #[trigger] header_value_char(
        hex_digit(((id >> ((4 * (31 - i)) as u128)) & 15u128) as nat),
    ) by {
        let x = id >> ((4 * (31 - i)) as u128);
        assert(x & 15u128 <= 15u128) by (bit_vector);
        lemma_hex_digit_visible((x & 15u128) as nat);
    }
    let u = uuid_hyphenated(id);
    assert forall|i: int| 0 <= i < u.len() implies header_value_char(#[trigger] u[i]) by {
        let hex = Seq::new(32, |k: int| hex_digit(((id >> ((4 * (31 - k)) as u128)) & 15u128) as nat));
        assert(forall|k: int| 0 <= k < 32 ==> header_value_char(#[trigger] hex[k]));
    }
}

/// `http` accepts a number in decimal as a header value.
proof fn lemma_decimal_accepted(n: nat)
    ensures
        valid_header_value(decimal(n)),
    decreases n,
{
    let digits = seq!['0', '1', '2', '3', '4', '5', '6', '7', '8', '9'];
    assert(forall|i: int| 0 <= i < 10 ==> '0' <= #[trigger] digits[i] <= '9');
    if n >= 10 {
        lemma_decimal_accepted(n / 10);
        let d = decimal(n / 10);
        assert(forall|i: int| 0 <= i < d.len() ==> header_value_char(#[trigger] d[i]));
        assert(header_value_char(digit_char(n % 10)));
    } else {
        assert(header_value_char(digit_char(n)));
    }
}

/// A list of headers whose names and values `http` all accepts meets no refusal.
proof fn lemma_accepted_headers(h: Seq<(Seq<char>, Seq<char>)>)
    requires
        forall|i: int| 0 <= i < h.len() ==> valid_header_name(#[trigger] h[i].0) && valid_header_value(h[i].1),
    ensures
        header_failure(h) is None,
    decreases h.len(),
{
    if h.len() > 0 {
        let init = h.drop_last();
        assert forall|i: int| 0 <= i < init.len() implies valid_header_name(#[trigger] init[i].0)
            && valid_header_value(init[i].1) by {
            assert(init[i] == h[i]);
        }
        lemma_accepted_headers(init);
        assert(h.last() == h[h.len() - 1]);
    }
}

/// A response with a valid status whose own headers `http` all accepts is
/// built: the runtime's request-id and execution-time headers and the
/// default content type always pass.
pub proof fn lemma_accepted_response_builds(r: LambdaResponse)
    requires
        100 <= r.status_code <= 999,
        forall|i: int|
            0 <= i < user_headers(r).len() ==> valid_header_name(#[trigger] user_headers(r)[i].0)
                && valid_header_value(user_headers(r)[i].1),
    ensures
        build_failure(r) is None,
{
    reveal_strlit("x-lambda-request-id");
    reveal_strlit("x-lambda-execution-time-ms");
    reveal_strlit("content-type");
    reveal_strlit("application/json");
    lemma_uuid_text_accepted(r.request_id);
    lemma_decimal_accepted(r.execution_time_ms as nat);
    let h = response_headers(r);
    let user = user_headers(r);
    assert forall|i: int| 0 <= i < h.len() implies valid_header_name(#[trigger] h[i].0) && valid_header_value(
        h[i].1,
    ) by {
        if 2 <= i < 2 + user.len() {
            assert(h[i] == user[i - 2]);
        }
    }
    lemma_accepted_headers(h);
}

/// Whether some header of `h`, at any position, is named `content-type`
/// in any letter case.
pub open spec fn names_content_type(h: Seq<(Seq<char>, Seq<char>)>) -> bool {
    exists|i: int| 0 <= i < h.len() && ascii_lower(#[trigger] h[i].0) == "content-type"@
}

/// The headers of the runtime's response: the request id and the execution
/// time first, then every header of the function, unchanged and in order;
/// the runtime adds its JSON content type, last, exactly when none of the
/// function's headers, wherever it stands, is a content type. So the
/// response never gets a second content type from the runtime.
pub proof fn lemma_default_content_type_only_when_missing(r: LambdaResponse)
    ensures
        response_headers(r)[0] == (CustomHeader::LambdaRequestId.name(), uuid_hyphenated(r.request_id)),
        response_headers(r)[1] == (CustomHeader::LambdaExecutionTimeMs.name(), decimal(r.execution_time_ms as nat)),
        response_headers(r).subrange(2, 2 + user_headers(r).len() as int) == user_headers(r),
        names_content_type(user_headers(r)) ==> response_headers(r).len() == user_headers(r).len() + 2,
        !names_content_type(user_headers(r)) ==> response_headers(r).len() == user_headers(r).len() + 3
            && response_headers(r).last() == ("content-type"@, "application/json"@),
{
    let h = response_headers(r);
    let u = user_headers(r);
    assert(h.subrange(2, 2 + u.len() as int) =~= u);
}

} // verus!
