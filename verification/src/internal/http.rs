//! The HTTP request operation: what a call asks to be sent and what the answer
//! comes to. A status that is no success is no error: the caller decides.

use vstd::prelude::*;
use vstd::string::*;

use reqwest::header::{HeaderName, HeaderValue};

use crate::encoding::{content_of, decode_content, encode_content, encoded_bytes};
use crate::execution::pair_texts;
use crate::internal::{require_str, required};
use crate::json::{json_opt_str, json_uint, members_of, object_of, pairs_view, set_member};
use crate::text::{cat2, cat3, cat4, opt_text, to_upper, upper};
use crate::value::{members, Json, Value};

verus! {

broadcast use crate::value::group_value_views;

/// The time limit of a request that names none, in seconds.
pub const DEFAULT_REQUEST_SECS: u64 = 30;

/// The longest name that a header may have.
pub const MAX_HEADER_NAME: usize = 65535;

/// Whether a character may stand in a method or in the name of a header.
pub open spec fn is_token_char(c: char) -> bool {
    ||| 'a' <= c <= 'z'
    ||| 'A' <= c <= 'Z'
    ||| '0' <= c <= '9'
    ||| c == '!' || c == '#' || c == '$' || c == '%' || c == '&' || c == '\'' || c == '*'
    ||| c == '+' || c == '-' || c == '.' || c == '^' || c == '_' || c == '`' || c == '|' || c == '~'
}

/// Whether a text is a token of HTTP.
pub open spec fn is_http_token(s: Seq<char>) -> bool {
    s.len() > 0 && forall|i: int| 0 <= i < s.len() ==> is_token_char(#[trigger] s[i])
}

/// Whether a text may be the value of a header: no control character but the
/// tab.
pub open spec fn is_header_value(s: Seq<char>) -> bool {
    forall|i: int|
        0 <= i < s.len() ==> (#[trigger] s[i] >= ' ' && s[i] != '\u{7f}') || s[i] == '\t'
}

pub open spec fn is_header_name(s: Seq<char>) -> bool {
    is_http_token(s) && s.len() <= MAX_HEADER_NAME
}

/// `reqwest::Method::from_bytes`: accepts the tokens of HTTP, and nothing else.
#[verifier::external_body]
fn check_method(s: &str) -> (r: Result<(), String>)
    ensures
        match r {
            Ok(_) => is_http_token(s@),
            Err(e) => !is_http_token(s@) && e@ == "invalid HTTP method"@,
        },
{
    reqwest::Method::from_bytes(s.as_bytes()).map(|_| ()).map_err(|e| e.to_string())
}

/// `reqwest::header::HeaderName::from_bytes`: accepts the tokens of HTTP up to a
/// length, and nothing else.
#[verifier::external_body]
fn check_header_name(s: &str) -> (r: Result<(), String>)
    ensures
        match r {
            Ok(_) => is_header_name(s@),
            Err(e) => !is_header_name(s@) && e@ == "invalid HTTP header name"@,
        },
{
    HeaderName::from_bytes(s.as_bytes()).map(|_| ()).map_err(|e| e.to_string())
}

/// `reqwest::header::HeaderValue::from_str`: accepts a text without control
/// characters other than the tab.
#[verifier::external_body]
fn check_header_value(s: &str) -> (r: Result<(), String>)
    ensures
        match r {
            Ok(_) => is_header_value(s@),
            Err(e) => !is_header_value(s@) && e@ == "failed to parse header value"@,
        },
{
    HeaderValue::from_str(s).map(|_| ()).map_err(|e| e.to_string())
}

/// A request to send.
#[derive(Debug)]
pub struct HttpPlan {
    pub url: String,
    pub method: String,
    pub timeout_secs: u64,
    pub headers: Vec<(String, String)>,
    pub body: Option<Vec<u8>>,
}

/// The body of a request.
pub open spec fn request_body(params: Json) -> Result<Option<Seq<u8>>, Seq<char>> {
    match params.get_str("body"@) {
        None => Ok(None),
        Some(s) => match encoded_bytes(
            s,
            params.str_or("body_encoding"@, "utf8"@),
            "invalid base64 body: "@,
            "unknown body_encoding '"@,
        ) {
            Ok(b) => Ok(Some(b)),
            Err(e) => Err(e),
        },
    }
}

/// What is wrong with a header, if anything.
pub open spec fn header_fault(name: Seq<char>, v: Json) -> Option<Seq<char>> {
    match v {
        Json::Str(s) => if !is_header_name(name) {
            Some("invalid header name '"@ + name + "': "@ + "invalid HTTP header name"@)
        } else if !is_header_value(s) {
            Some("invalid header value for '"@ + name + "': "@ + "failed to parse header value"@)
        } else {
            None
        },
        _ => Some("header '"@ + name + "' must be a string"@),
    }
}

/// What is wrong with the first `n` headers, if anything.
pub open spec fn headers_fault(m: Seq<(Seq<char>, Json)>, n: nat) -> Option<Seq<char>>
    decreases n,
{
    if n == 0 || n > m.len() {
        None
    } else {
        match headers_fault(m, (n - 1) as nat) {
            Some(e) => Some(e),
            None => header_fault(m[n - 1].0, m[n - 1].1),
        }
    }
}

/// The headers of a request: those that a call names, each a string.
pub open spec fn request_headers(params: Json) -> Result<Seq<(Seq<char>, Seq<char>)>, Seq<char>> {
    match params.get("headers"@) {
        None => Ok(Seq::empty()),
        Some(Json::Object(m)) => match headers_fault(m, m.len()) {
            Some(e) => Err(e),
            None => Ok(crate::execution::string_entries(Some(Json::Object(m)))),
        },
        Some(_) => Err("headers must be an object of string -> string"@),
    }
}

fn check_headers(params: &Value) -> (r: Result<Vec<(String, String)>, String>)
    ensures
        match r {
            Ok(h) => request_headers(params@) == Ok::<Seq<(Seq<char>, Seq<char>)>, Seq<char>>(
                pair_texts(h@),
            ),
            Err(e) => request_headers(params@) == Err::<Seq<(Seq<char>, Seq<char>)>, Seq<char>>(e@),
        },
{
    match params.get("headers") {
        None => {
            let none: Vec<(String, String)> = Vec::new();
            assert(pair_texts(none@) =~= Seq::<(Seq<char>, Seq<char>)>::empty());
            Ok(none)
        },
        Some(Value::Object(m)) => {
            let mut i: usize = 0;
            while i < m.len()
                invariant
                    i <= m.len(),
                    headers_fault(members(m@), i as nat) is None,
                    params@.get("headers"@) == Some(Json::Object(members(m@))),
                decreases m.len() - i,
            {
                let name = m[i].0.as_str();
                let fault: Option<String> = match &m[i].1 {
                    Value::Str(s) => match check_header_name(name) {
                        Err(e) => Some(cat4("invalid header name '", name, "': ", e.as_str())),
                        Ok(_) => match check_header_value(s.as_str()) {
                            Err(e) => Some(
                                cat4("invalid header value for '", name, "': ", e.as_str()),
                            ),
                            Ok(_) => None,
                        },
                    },
                    _ => Some(cat3("header '", name, "' must be a string")),
                };
                assert(crate::text::opt_string(fault) == header_fault(
                    members(m@)[i as int].0,
                    members(m@)[i as int].1,
                ));
                if let Some(e) = fault {
                    proof {
                        lemma_fault_stays(members(m@), (i + 1) as nat, m@.len());
                    }
                    return Err(e);
                }
                i += 1;
            }
            Ok(crate::execution::collect_strings(params.get("headers")))
        },
        Some(_) => Err("headers must be an object of string -> string".to_owned()),
    }
}

proof fn lemma_fault_stays(m: Seq<(Seq<char>, Json)>, i: nat, n: nat)
    requires
        i <= n <= m.len(),
        headers_fault(m, i) is Some,
    ensures
        headers_fault(m, n) == headers_fault(m, i),
    decreases n,
{
    if i < n {
        lemma_fault_stays(m, i, (n - 1) as nat);
    }
}

/// The method of a request: what the call names, in capitals.
pub open spec fn request_method(params: Json) -> Seq<char> {
    upper(params.str_or("method"@, "GET"@))
}

/// The time limit of a request.
pub open spec fn request_secs(params: Json) -> u64 {
    match params.get_u64("timeout_secs"@) {
        Some(n) => n,
        None => DEFAULT_REQUEST_SECS,
    }
}

/// What is wrong with a request, if anything: the first of its faults.
pub open spec fn request_fault(params: Json) -> Option<Seq<char>> {
    if let Err(e) = required(params, "url"@) {
        Some(e)
    } else if request_secs(params) == 0 {
        Some("timeout_secs must be > 0"@)
    } else if let Err(e) = request_body(params) {
        Some(e)
    } else if !is_http_token(request_method(params)) {
        Some("invalid method: "@ + "invalid HTTP method"@)
    } else if let Err(e) = request_headers(params) {
        Some(e)
    } else {
        None
    }
}

/// Whether a plan is the request that a call asks for.
pub open spec fn is_http_plan(r: Result<HttpPlan, String>, params: Json) -> bool {
    match request_fault(params) {
        Some(e) => r is Err && r->Err_0@ == e,
        None => {
            &&& r is Ok
            &&& Some(r->Ok_0.url@) == params.get_str("url"@)
            &&& r->Ok_0.method@ == request_method(params)
            &&& r->Ok_0.timeout_secs == request_secs(params)
            &&& Ok::<_, Seq<char>>(pair_texts(r->Ok_0.headers@)) == request_headers(params)
            &&& Ok::<_, Seq<char>>(
                match r->Ok_0.body {
                    Some(b) => Some(b@),
                    None => None,
                },
            ) == request_body(params)
        },
    }
}

/// Read a call as the request that it asks for.
pub fn http_request(params: &Value) -> (r: Result<HttpPlan, String>)
    ensures
        is_http_plan(r, params@),
{
    let url = match require_str(params, "url") {
        Ok(s) => s,
        Err(e) => {
            return Err(e);
        },
    };
    let method = to_upper(params.str_or("method", "GET"));
    let timeout_secs: u64 = match params.get_u64("timeout_secs") {
        Some(n) => n,
        None => DEFAULT_REQUEST_SECS,
    };
    if timeout_secs == 0 {
        return Err("timeout_secs must be > 0".to_owned());
    }
    let body = match params.get_str("body") {
        None => None,
        Some(s) => match decode_content(
            s,
            params.str_or("body_encoding", "utf8"),
            "invalid base64 body: ",
            "unknown body_encoding '",
        ) {
            Ok(b) => Some(b),
            Err(e) => {
                return Err(e);
            },
        },
    };
    if let Err(e) = check_method(method.as_str()) {
        return Err(cat2("invalid method: ", e.as_str()));
    }
    let headers = match check_headers(params) {
        Ok(h) => h,
        Err(e) => {
            return Err(e);
        },
    };
    Ok(HttpPlan { url: url.to_owned(), method, timeout_secs, headers, body })
}

/// The headers of an answer as members of an object, of two of one name the
/// later.
pub open spec fn text_pairs(h: Seq<(String, String)>) -> Seq<(Seq<char>, Json)> {
    Seq::new(h.len(), |i: int| (h[i].0@, Json::Str(h[i].1@)))
}

fn header_object(h: &Vec<(String, String)>) -> (r: Value)
    ensures
        r@ == object_of(text_pairs(h@)),
{
    let mut m: Vec<(String, Value)> = Vec::new();
    assert(members(m@) =~= Seq::<(Seq<char>, Json)>::empty());
    let ghost all = text_pairs(h@);
    let mut i: usize = 0;
    while i < h.len()
        invariant
            i <= h.len(),
            all == text_pairs(h@),
            members(m@) == members_of(all.take(i as int)),
        decreases h.len() - i,
    {
        assert(all.take(i + 1).drop_last() =~= all.take(i as int));
        set_member(&mut m, h[i].0.as_str(), Value::text(h[i].1.as_str()));
        i += 1;
    }
    assert(all.take(all.len() as int) =~= all);
    Value::Object(m)
}

pub open spec fn response_json(
    status: u16,
    url: Seq<char>,
    content_type: Option<Seq<char>>,
    headers: Seq<(String, String)>,
    body: Seq<u8>,
) -> Json {
    object_of(
        seq![
            ("status"@, json_uint(status as u64)),
            ("url"@, Json::Str(url)),
            ("content_type"@, json_opt_str(content_type)),
            ("headers"@, object_of(text_pairs(headers))),
            ("body"@, Json::Str(content_of(body).0)),
            ("body_encoding"@, Json::Str(content_of(body).1)),
        ],
    )
}

/// What the answer to a request comes to. The headers are those whose value is
/// text.
pub fn http_response(
    status: u16,
    url: &str,
    content_type: Option<&str>,
    headers: &Vec<(String, String)>,
    body: Vec<u8>,
) -> (r: Value)
    ensures
        r@ == response_json(status, url@, opt_text(content_type), headers@, body@),
{
    let (text, encoding) = encode_content(body);
    let pairs: Vec<(&'static str, Value)> = vec![
        ("status", Value::uint(status as u64)),
        ("url", Value::text(url)),
        ("content_type", Value::opt_text(content_type)),
        ("headers", header_object(headers)),
        ("body", Value::Str(text)),
        ("body_encoding", Value::text(encoding)),
    ];
    assert(pairs_view(pairs@) =~= seq![
        ("status"@, json_uint(status as u64)),
        ("url"@, Json::Str(url@)),
        ("content_type"@, json_opt_str(opt_text(content_type))),
        ("headers"@, object_of(text_pairs(headers@))),
        ("body"@, Json::Str(text@)),
        ("body_encoding"@, Json::Str(encoding@)),
    ]);
    Value::object(pairs)
}

// ── Fetching a page ──────────────────────────────────────────────────────────

/// Which page a call fetches.
pub fn fetch_html(params: &Value) -> (r: Result<String, String>)
    ensures
        match required(params@, "url"@) {
            Ok(u) => r is Ok && r->Ok_0@ == u,
            Err(e) => r is Err && r->Err_0@ == e,
        },
{
    match require_str(params, "url") {
        Ok(u) => Ok(u.to_owned()),
        Err(e) => Err(e),
    }
}

/// Whether this is the page that a fetch came back with.
pub open spec fn is_fetched(
    r: Result<Value, String>,
    success: bool,
    status: Seq<char>,
    text: Seq<char>,
) -> bool {
    if success {
        r is Ok && r->Ok_0@ == object_of(seq![("html"@, Json::Str(text))])
    } else {
        r is Err && r->Err_0@ == "fetch returned HTTP "@ + status
    }
}

/// What the answer to a fetch comes to; here a status that is no success is an
/// error.
pub fn fetched(success: bool, status: &str, text: String) -> (r: Result<Value, String>)
    ensures
        is_fetched(r, success, status@, text@),
{
    if !success {
        return Err(cat2("fetch returned HTTP ", status));
    }
    let pairs: Vec<(&'static str, Value)> = vec![("html", Value::Str(text))];
    assert(pairs_view(pairs@) =~= seq![("html"@, Json::Str(text@))]);
    Ok(Value::object(pairs))
}

} // verus!
