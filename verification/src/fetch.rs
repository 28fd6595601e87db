//! The requests of the `fetch` helper: how its options are read, and what the
//! script gets back from a response.

use vstd::prelude::*;

use crate::json::{find_key, json_parse, json_wf, lookup, try_json_decode, Json};
use crate::text::{to_uppercase, uppercase};

verus! {

/// A request as `fetch` reads it from its options.
#[derive(Debug)]
pub struct FetchOptions {
    pub url: String,
    /// The method, in upper case.
    pub method: String,
    pub body: Option<String>,
    /// The headers with a string value, in the order of the options object.
    pub headers: Option<Vec<(String, String)>>,
}

/// Why `fetch` does not send a request: a runtime error with a message for
/// the script, or a method, header or address that the HTTP library refuses.
#[derive(Debug)]
pub enum FetchOptionsError {
    Runtime(String),
    InvalidMethod(String),
    InvalidHeaderName(String),
    InvalidHeaderValue(String),
    InvalidUrl(String),
}

/// A request, as text.
pub struct FetchRequest {
    pub url: Seq<char>,
    pub method: Seq<char>,
    pub body: Option<Seq<char>>,
    pub headers: Option<Seq<(Seq<char>, Seq<char>)>>,
}

/// Why a request is not sent, as text.
pub enum FetchRefusal {
    Message(Seq<char>),
    Method(Seq<char>),
    HeaderName(Seq<char>),
    HeaderValue(Seq<char>),
    Url(Seq<char>),
}

/// Whether a character may stand in an HTTP token (a method, a header name):
/// an ASCII letter or digit, or one of ``!#$%&'*+-.^_`|~``.
pub open spec fn is_token_char(c: char) -> bool {
    ||| ('0' <= c && c <= '9')
    ||| ('A' <= c && c <= 'Z')
    ||| ('a' <= c && c <= 'z')
    ||| c == '!' || c == '#' || c == '$' || c == '%' || c == '&' || c == '\''
    ||| c == '*' || c == '+' || c == '-' || c == '.' || c == '^' || c == '_'
    ||| c == '`' || c == '|' || c == '~'
}

/// Whether every character of a text may stand in an HTTP token.
pub open spec fn all_token_chars(t: Seq<char>) -> bool {
    forall|i: int| 0 <= i < t.len() ==> is_token_char(#[trigger] t[i])
}

/// Whether the HTTP library accepts a method: it is not empty, and all its
/// characters may stand in a token (case is kept, so `get` is a method of its
/// own).
pub open spec fn http_method_accepted(method: Seq<char>) -> bool {
    method.len() > 0 && all_token_chars(method)
}

/// Whether the HTTP library accepts a header name: it has between 1 and 65535
/// characters, all of which may stand in a token.
pub open spec fn header_name_accepted(name: Seq<char>) -> bool {
    0 < name.len() <= 65535 && all_token_chars(name)
}

/// Whether `url::Url::parse` accepts an address.
pub uninterp spec fn url_accepted(url: Seq<char>) -> bool;

/// Whether a header value is accepted: each character is a tab, or neither a
/// control character nor DEL (characters beyond ASCII are accepted, since
/// each byte of their encoding is).
pub open spec fn header_value_accepted(value: Seq<char>) -> bool {
    forall|i: int|
        0 <= i < value.len() ==> (#[trigger] value[i]) == '\t' || (value[i] as u32 >= 0x20
            && value[i] as u32 != 0x7f)
}

/// Calls `reqwest::Method::try_from` (the `http` crate's `Method::from_bytes`
/// on the method's bytes) and tells whether it succeeded: it does when there
/// is at least one byte and each is a token character of its table (all of
/// them ASCII, so a character beyond ASCII is refused).
#[verifier::external_body]
fn method_is_valid(method: &str) -> (r: bool)
    ensures
        r == http_method_accepted(method@),
{
    reqwest::Method::try_from(method).is_ok()
}

/// Calls `reqwest::header::HeaderName::from_bytes` on the name's bytes and
/// tells whether it succeeded: it does when there are 1 to 65535 bytes and each
/// is a token character of its table (all of them ASCII; upper-case letters
/// are accepted and made lower case).
#[verifier::external_body]
fn header_name_is_valid(name: &str) -> (r: bool)
    ensures
        r == header_name_accepted(name@),
{
    reqwest::header::HeaderName::from_bytes(name.as_bytes()).is_ok()
}

/// Calls `reqwest::header::HeaderValue::from_str` and tells whether it
/// succeeded: it does when every byte of the value is a tab or at least 0x20
/// and not 0x7f.
#[verifier::external_body]
fn header_value_is_valid(value: &str) -> (r: bool)
    ensures
        r == header_value_accepted(value@),
{
    reqwest::header::HeaderValue::from_str(value).is_ok()
}

/// Calls `url::Url::parse` and tells whether it succeeded; named
/// `url_accepted`.
#[verifier::external_body]
fn url_is_valid(url: &str) -> (r: bool)
    ensures
        r == url_accepted(url@),
{
    url::Url::parse(url).is_ok()
}

/// The entries of an object whose value is a string, in order.
pub open spec fn string_entries(es: Seq<(String, Json)>) -> Seq<(Seq<char>, Seq<char>)>
    decreases es.len(),
{
    if es.len() == 0 {
        Seq::empty()
    } else {
        let rest = string_entries(es.drop_last());
        match es.last().1 {
            Json::Str(v) => rest.push((es.last().0@, v@)),
            _ => rest,
        }
    }
}

/// The first header, in order, whose name or value is refused.
pub open spec fn first_bad_header(hs: Seq<(Seq<char>, Seq<char>)>) -> Option<FetchRefusal>
    decreases hs.len(),
{
    if hs.len() == 0 {
        None
    } else if !header_name_accepted(hs[0].0) {
        Some(FetchRefusal::HeaderName(hs[0].0))
    } else if !header_value_accepted(hs[0].1) {
        Some(FetchRefusal::HeaderValue(hs[0].1))
    } else {
        first_bad_header(hs.drop_first())
    }
}

/// How `fetch` reads its options: they are an object; `url` is present and a
/// string; `method`, when present, is a string, and `get` otherwise, and is
/// put in upper case, and must be a method; `body`, when present, is a
/// string; `headers`, when it is an object, gives the headers whose value is a
/// string, each with a valid name and value; last, the address must parse.
/// Each failure is found in that order.
pub open spec fn fetch_request(options: Json) -> Result<FetchRequest, FetchRefusal> {
    match options {
        Json::Object(entries) => {
            let es = entries@;
            match lookup(es, "url"@) {
                None => Err(FetchRefusal::Message("Missing URL"@)),
                Some(Json::Str(url)) => {
                    let method = match lookup(es, "method"@) {
                        None => Some("get"@),
                        Some(Json::Str(m)) => Some(m@),
                        Some(_) => None,
                    };
                    match method {
                        None => Err(FetchRefusal::Message("Failed to decode method"@)),
                        Some(m) => if !http_method_accepted(uppercase(m)) {
                            Err(FetchRefusal::Method(uppercase(m)))
                        } else {
                            let body = match lookup(es, "body"@) {
                                None => Some(None),
                                Some(Json::Str(b)) => Some(Some(b@)),
                                Some(_) => None,
                            };
                            let headers = match lookup(es, "headers"@) {
                                Some(Json::Object(hs)) => Some(string_entries(hs@)),
                                _ => None,
                            };
                            match body {
                                None => Err(FetchRefusal::Message("Body must be string"@)),
                                Some(b) => match headers {
                                    Some(hs) if first_bad_header(hs) is Some => Err(
                                        first_bad_header(hs)->Some_0,
                                    ),
                                    _ => if !url_accepted(url@) {
                                        Err(FetchRefusal::Url(url@))
                                    } else {
                                        Ok(
                                            FetchRequest {
                                                url: url@,
                                                method: uppercase(m),
                                                body: b,
                                                headers,
                                            },
                                        )
                                    },
                                },
                            }
                        },
                    }
                },
                Some(_) => Err(FetchRefusal::Message("Wrong format for URL field"@)),
            }
        },
        _ => Err(FetchRefusal::Message("Invalid fetch options."@)),
    }
}

/// A request read from options is what they say: it goes to the `url`
/// option's text as given; its method is the `method` option (or `get`) in
/// upper case; its body is the `body` option, if there is one; its headers are
/// the string-valued entries of the `headers` object, in order, if it is one.
pub proof fn a_request_keeps_its_options(options: Json)
    ensures
        fetch_request(options) matches Ok(req) ==> (options matches Json::Object(es) && {
            &&& lookup(es@, "url"@) matches Some(Json::Str(u)) && req.url == u@
            &&& req.method == uppercase(
                match lookup(es@, "method"@) {
                    Some(Json::Str(m)) => m@,
                    _ => "get"@,
                },
            )
            &&& req.body == match lookup(es@, "body"@) {
                Some(Json::Str(b)) => Some(b@),
                _ => None,
            }
            &&& req.headers == match lookup(es@, "headers"@) {
                Some(Json::Object(hs)) => Some(string_entries(hs@)),
                _ => None,
            }
        }),
{
}

/// Options are refused, with the message the script sees, when they are not an
/// object, have no `url`, or have a `url` that is not a string; a method the
/// HTTP library refuses is refused in upper case, and an address it refuses
/// as given.
pub proof fn a_request_refuses_bad_options(options: Json)
    ensures
        !(options is Object) ==> fetch_request(options) == Err::<FetchRequest, FetchRefusal>(
            FetchRefusal::Message("Invalid fetch options."@),
        ),
        options matches Json::Object(es) && lookup(es@, "url"@) is None ==> fetch_request(options)
            == Err::<FetchRequest, FetchRefusal>(FetchRefusal::Message("Missing URL"@)),
        options matches Json::Object(es) && lookup(es@, "url"@) matches Some(v) && !(v is Str)
            ==> fetch_request(options) == Err::<FetchRequest, FetchRefusal>(
            FetchRefusal::Message("Wrong format for URL field"@),
        ),
        fetch_request(options) matches Err(FetchRefusal::Method(m)) ==> !http_method_accepted(m),
        fetch_request(options) matches Err(FetchRefusal::Url(u)) ==> !url_accepted(u) && (
        options matches Json::Object(es) && lookup(es@, "url"@) matches Some(Json::Str(given))
            && u == given@),
{
    if let Json::Object(es) = options {
        if let Some(Json::Object(hs)) = lookup(es@, "headers"@) {
            lemma_bad_header_kind(string_entries(hs@));
        }
    }
}

proof fn lemma_bad_header_kind(hs: Seq<(Seq<char>, Seq<char>)>)
    ensures
        first_bad_header(hs) matches Some(r) ==> (r is HeaderName || r is HeaderValue),
    decreases hs.len(),
{
    if hs.len() > 0 {
        lemma_bad_header_kind(hs.drop_first());
    }
}

/// The headers as text.
pub open spec fn header_texts(h: Seq<(String, String)>) -> Seq<(Seq<char>, Seq<char>)> {
    h.map_values(|p: (String, String)| (p.0@, p.1@))
}

/// A request as text.
pub open spec fn request_of(o: FetchOptions) -> FetchRequest {
    FetchRequest {
        url: o.url@,
        method: o.method@,
        body: match o.body {
            Some(b) => Some(b@),
            None => None,
        },
        headers: match o.headers {
            Some(h) => Some(header_texts(h@)),
            None => None,
        },
    }
}

/// Why a request is not sent, as text.
pub open spec fn refusal_of(e: FetchOptionsError) -> FetchRefusal {
    match e {
        FetchOptionsError::Runtime(m) => FetchRefusal::Message(m@),
        FetchOptionsError::InvalidMethod(m) => FetchRefusal::Method(m@),
        FetchOptionsError::InvalidHeaderName(n) => FetchRefusal::HeaderName(n@),
        FetchOptionsError::InvalidHeaderValue(v) => FetchRefusal::HeaderValue(v@),
        FetchOptionsError::InvalidUrl(u) => FetchRefusal::Url(u@),
    }
}

fn runtime_error(msg: &str) -> (r: FetchOptionsError)
    ensures
        refusal_of(r) == FetchRefusal::Message(msg@),
{
    FetchOptionsError::Runtime(msg.to_owned())
}

/// The headers of an object whose value is a string, in order.
fn string_headers(es: &Vec<(String, Json)>) -> (r: Vec<(String, String)>)
    ensures
        header_texts(r@) == string_entries(es@),
{
    let mut r: Vec<(String, String)> = Vec::new();
    let n = es.len();
    let mut i: usize = 0;
    while i < n
        invariant
            n == es@.len(),
            i <= n,
            header_texts(r@) == string_entries(es@.take(i as int)),
        decreases n - i,
    {
        assert(es@.take(i + 1).drop_last() =~= es@.take(i as int));
        assert(es@.take(i + 1).last() == es@[i as int]);
        match &es[i].1 {
            Json::Str(v) => {
                r.push((es[i].0.clone(), v.clone()));
            },
            _ => {},
        }
        assert(header_texts(r@) =~= string_entries(es@.take(i + 1)));
        i = i + 1;
    }
    assert(es@.take(n as int) =~= es@);
    r
}

/// The first header whose name or value is refused.
fn check_headers(hs: &Vec<(String, String)>) -> (r: Option<FetchOptionsError>)
    ensures
        match r {
            Some(e) => first_bad_header(header_texts(hs@)) == Some(refusal_of(e)),
            None => first_bad_header(header_texts(hs@)) is None,
        },
{
    let ghost all = header_texts(hs@);
    let n = hs.len();
    let mut i: usize = 0;
    assert(all.skip(0) =~= all);
    while i < n
        invariant
            n == hs@.len(),
            all == header_texts(hs@),
            i <= n,
            first_bad_header(all) == first_bad_header(all.skip(i as int)),
        decreases n - i,
    {
        assert(all.skip(i as int)[0] == all[i as int]);
        assert(all.skip(i as int).drop_first() =~= all.skip(i + 1));
        if !header_name_is_valid(hs[i].0.as_str()) {
            return Some(FetchOptionsError::InvalidHeaderName(hs[i].0.clone()));
        }
        if !header_value_is_valid(hs[i].1.as_str()) {
            return Some(FetchOptionsError::InvalidHeaderValue(hs[i].1.clone()));
        }
        i = i + 1;
    }
    None
}

/// Reads the options of `fetch` into a request, or finds the first reason not
/// to send it.
pub fn parse_fetch_options(options: &Json) -> (r: Result<FetchOptions, FetchOptionsError>)
    ensures
        match r {
            Ok(o) => fetch_request(*options) == Ok::<FetchRequest, FetchRefusal>(request_of(o)),
            Err(e) => fetch_request(*options) == Err::<FetchRequest, FetchRefusal>(refusal_of(e)),
        },
        r matches Ok(o) ==> (*options matches Json::Object(es) && lookup(es@, "url"@) matches Some(
            Json::Str(u),
        ) && o.url@ == u@),
{
    let entries = match options {
        Json::Object(entries) => entries,
        _ => {
            return Err(runtime_error("Invalid fetch options."));
        },
    };
    let url_key = "url".to_owned();
    let url = match find_key(entries, &url_key) {
        None => {
            return Err(runtime_error("Missing URL"));
        },
        Some(i) => match &entries[i].1 {
            Json::Str(u) => u.clone(),
            _ => {
                return Err(runtime_error("Wrong format for URL field"));
            },
        },
    };
    let method_key = "method".to_owned();
    let method = match find_key(entries, &method_key) {
        None => to_uppercase("get"),
        Some(i) => match &entries[i].1 {
            Json::Str(m) => to_uppercase(m.as_str()),
            _ => {
                return Err(runtime_error("Failed to decode method"));
            },
        },
    };
    if !method_is_valid(method.as_str()) {
        return Err(FetchOptionsError::InvalidMethod(method));
    }
    let body_key = "body".to_owned();
    let body = match find_key(entries, &body_key) {
        None => None,
        Some(i) => match &entries[i].1 {
            Json::Str(b) => Some(b.clone()),
            _ => {
                return Err(runtime_error("Body must be string"));
            },
        },
    };
    let headers_key = "headers".to_owned();
    let headers = match find_key(entries, &headers_key) {
        None => None,
        Some(i) => match &entries[i].1 {
            Json::Object(hs) => Some(string_headers(hs)),
            _ => None,
        },
    };
    match &headers {
        Some(hs) => match check_headers(hs) {
            Some(e) => {
                return Err(e);
            },
            None => {},
        },
        None => {},
    }
    if !url_is_valid(url.as_str()) {
        return Err(FetchOptionsError::InvalidUrl(url));
    }
    let o = FetchOptions { url, method, body, headers };
    assert(request_of(o) == fetch_request(*options)->Ok_0);
    Ok(o)
}

/// What `fetch` hands back to the script.
#[derive(Debug)]
pub struct FetchResponse {
    pub status: u16,
    pub headers: Vec<(String, String)>,
    pub body: String,
    /// The body read as JSON, or `null` where it is not JSON.
    pub json: Json,
}

/// The response handed back to the script: status, headers and body as
/// received, and the body read as JSON, `null` where it is not JSON.
pub fn fetch_response(status: u16, headers: Vec<(String, String)>, body: String) -> (r:
    FetchResponse)
    ensures
        r.status == status,
        r.headers == headers,
        r.body == body,
        r.json == match json_parse(body@) {
            Some(j) => j,
            None => Json::Null,
        },
        json_wf(r.json),
{
    let json = match try_json_decode(body.as_str()) {
        Some(j) => j,
        None => Json::Null,
    };
    FetchResponse { status, headers, body, json }
}

} // verus!
