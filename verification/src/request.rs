//! Planning an HTTP request: which method, query pairs, header fields and
//! body are sent for a request as the user described it.

use vstd::prelude::*;
use vstd::string::StringExecFns;
use crate::text::same_text;

verus! {

/// A header field of a request, as the user entered it.
#[derive(Debug)]
pub struct RequestHeader {
    pub key: String,
    pub value: String,
    pub enabled: bool,
}

/// A query parameter of a request, as the user entered it.
#[derive(Debug)]
pub struct QueryParam {
    pub key: String,
    pub value: String,
    pub enabled: bool,
}

/// The body of a request: its kind and its text.
#[derive(Debug)]
pub struct RequestBody {
    pub body_type: String,
    pub content: String,
}

/// User name and password for basic authentication.
#[derive(Debug)]
pub struct BasicAuth {
    pub username: String,
    pub password: String,
}

/// An API key and where it is sent.
#[derive(Debug)]
pub struct ApiKey {
    pub key: String,
    pub value: String,
    pub location: String,
}

/// How a request authenticates.
#[derive(Debug)]
pub struct Auth {
    pub auth_type: String,
    pub bearer_token: Option<String>,
    pub basic_auth: Option<BasicAuth>,
    pub api_key: Option<ApiKey>,
}

/// The methods a request can be sent with.
#[derive(Clone, Copy, Debug, PartialEq, Eq, Structural)]
pub enum HttpMethod {
    Get,
    Post,
    Put,
    Delete,
    Patch,
    Head,
    Options,
}

/// One step in setting the header of a request.
#[derive(Debug)]
pub enum PlannedHeader {
    /// A field with this name and value is added.
    Field { name: String, value: String },
    /// The credentials are sent by basic authentication.
    Basic { username: String, password: String },
}

/// Why a request cannot be sent.
#[derive(Clone, Copy, Debug, PartialEq, Eq, Structural)]
pub enum RequestError {
    /// The method is none of the seven that are supported.
    UnsupportedMethod,
}

/// What is sent for a request.
#[derive(Debug)]
pub struct RequestPlan {
    pub method: HttpMethod,
    /// The query pairs that are appended to the URL, in order.
    pub query: Vec<(String, String)>,
    /// The header steps, in the order in which they are applied.
    pub headers: Vec<PlannedHeader>,
    /// The body, if one is sent.
    pub body: Option<String>,
}

/// A header field or query parameter, as mathematical values.
pub struct Entry {
    pub key: Seq<char>,
    pub value: Seq<char>,
    pub enabled: bool,
}

/// A header step, as mathematical values.
pub enum HeaderStep {
    Field { name: Seq<char>, value: Seq<char> },
    Basic { username: Seq<char>, password: Seq<char> },
}

/// A request plan, as mathematical values.
pub struct PlanModel {
    pub method: HttpMethod,
    pub query: Seq<(Seq<char>, Seq<char>)>,
    pub headers: Seq<HeaderStep>,
    pub body: Option<Seq<char>>,
}

impl View for RequestHeader {
    type V = Entry;

    open spec fn view(&self) -> Entry {
        Entry { key: self.key@, value: self.value@, enabled: self.enabled }
    }
}

impl View for QueryParam {
    type V = Entry;

    open spec fn view(&self) -> Entry {
        Entry { key: self.key@, value: self.value@, enabled: self.enabled }
    }
}

impl View for PlannedHeader {
    type V = HeaderStep;

    open spec fn view(&self) -> HeaderStep {
        match self {
            PlannedHeader::Field { name, value } => HeaderStep::Field { name: name@, value: value@ },
            PlannedHeader::Basic { username, password } => HeaderStep::Basic {
                username: username@,
                password: password@,
            },
        }
    }
}

/// The texts of a list of string pairs.
pub open spec fn pair_texts(pairs: Seq<(String, String)>) -> Seq<(Seq<char>, Seq<char>)> {
    pairs.map_values(|p: (String, String)| (p.0@, p.1@))
}

/// The steps of a list of planned headers.
pub open spec fn header_steps(headers: Seq<PlannedHeader>) -> Seq<HeaderStep> {
    headers.map_values(|h: PlannedHeader| h@)
}

impl View for RequestPlan {
    type V = PlanModel;

    open spec fn view(&self) -> PlanModel {
        PlanModel {
            method: self.method,
            query: pair_texts(self.query@),
            headers: header_steps(self.headers@),
            body: match self.body {
                Some(b) => Some(b@),
                None => None,
            },
        }
    }
}

/// The method with the given upper-case name.
pub open spec fn method_named(name: Seq<char>) -> Option<HttpMethod> {
    if name == "GET"@ {
        Some(HttpMethod::Get)
    } else if name == "POST"@ {
        Some(HttpMethod::Post)
    } else if name == "PUT"@ {
        Some(HttpMethod::Put)
    } else if name == "DELETE"@ {
        Some(HttpMethod::Delete)
    } else if name == "PATCH"@ {
        Some(HttpMethod::Patch)
    } else if name == "HEAD"@ {
        Some(HttpMethod::Head)
    } else if name == "OPTIONS"@ {
        Some(HttpMethod::Options)
    } else {
        None
    }
}

/// An entry is sent when it is enabled and has a key.
pub open spec fn is_active(e: Entry) -> bool {
    e.enabled && e.key.len() > 0
}

/// The entries that are sent, in order.
pub open spec fn active(entries: Seq<Entry>) -> Seq<Entry> {
    entries.filter(|e: Entry| is_active(e))
}

/// The key and value of each entry.
pub open spec fn as_pairs(entries: Seq<Entry>) -> Seq<(Seq<char>, Seq<char>)> {
    entries.map_values(|e: Entry| (e.key, e.value))
}

/// A plain header field for each entry.
pub open spec fn as_fields(entries: Seq<Entry>) -> Seq<HeaderStep> {
    entries.map_values(|e: Entry| HeaderStep::Field { name: e.key, value: e.value })
}

/// The entries of a list of query parameters.
pub open spec fn param_entries(params: Seq<QueryParam>) -> Seq<Entry> {
    params.map_values(|p: QueryParam| p@)
}

/// The entries of a list of header fields.
pub open spec fn header_entries(headers: Seq<RequestHeader>) -> Seq<Entry> {
    headers.map_values(|h: RequestHeader| h@)
}

/// The header step by which `auth` authenticates, if it has one: a bearer
/// token as an `Authorization` field, basic credentials, or an API key that
/// is sent in the header.
pub open spec fn auth_step(auth: Option<Auth>) -> Option<HeaderStep> {
    match auth {
        None => None,
        Some(a) => if a.auth_type@ == "bearer"@ {
            match a.bearer_token {
                Some(token) => Some(
                    HeaderStep::Field { name: "Authorization"@, value: "Bearer "@ + token@ },
                ),
                None => None,
            }
        } else if a.auth_type@ == "basic"@ {
            match a.basic_auth {
                Some(basic) => Some(
                    HeaderStep::Basic { username: basic.username@, password: basic.password@ },
                ),
                None => None,
            }
        } else if a.auth_type@ == "api-key"@ {
            match a.api_key {
                Some(k) => if k.location@ == "header"@ {
                    Some(HeaderStep::Field { name: k.key@, value: k.value@ })
                } else {
                    None
                },
                None => None,
            }
        } else {
            None
        },
    }
}

/// The content type that is announced for `body`, if any.
pub open spec fn content_type_of(body: Option<RequestBody>) -> Option<Seq<char>> {
    match body {
        None => None,
        Some(b) => if b.body_type@ == "json"@ {
            Some("application/json"@)
        } else if b.body_type@ == "x-www-form-urlencoded"@ {
            Some("application/x-www-form-urlencoded"@)
        } else {
            None
        },
    }
}

/// The text that is sent as the body, if any: the content of a body of kind
/// `json`, `raw` or `x-www-form-urlencoded`.
pub open spec fn body_text(body: Option<RequestBody>) -> Option<Seq<char>> {
    match body {
        None => None,
        Some(b) => if b.body_type@ == "json"@ || b.body_type@ == "raw"@ || b.body_type@
            == "x-www-form-urlencoded"@ {
            Some(b.content@)
        } else {
            None
        },
    }
}

/// A sequence with the value of an option, or without any.
pub open spec fn one_or_none<T>(o: Option<T>) -> Seq<T> {
    match o {
        Some(x) => seq![x],
        None => Seq::empty(),
    }
}

/// The `Content-Type` field for a content type.
pub open spec fn content_type_step(content_type: Option<Seq<char>>) -> Option<HeaderStep> {
    match content_type {
        Some(t) => Some(HeaderStep::Field { name: "Content-Type"@, value: t }),
        None => None,
    }
}

/// The header steps of a request: the active header fields, then the step
/// of the authentication, then the content type of the body.
pub open spec fn planned_headers(
    headers: Seq<RequestHeader>,
    auth: Option<Auth>,
    body: Option<RequestBody>,
) -> Seq<HeaderStep> {
    as_fields(active(header_entries(headers))) + one_or_none(auth_step(auth)) + one_or_none(
        content_type_step(content_type_of(body)),
    )
}

/// The plan for a request, or why there is none.
pub open spec fn planned(
    method: Seq<char>,
    query_params: Seq<QueryParam>,
    headers: Seq<RequestHeader>,
    auth: Option<Auth>,
    body: Option<RequestBody>,
) -> Result<PlanModel, RequestError> {
    match method_named(method) {
        None => Err(RequestError::UnsupportedMethod),
        Some(m) => Ok(
            PlanModel {
                method: m,
                query: as_pairs(active(param_entries(query_params))),
                headers: planned_headers(headers, auth, body),
                body: body_text(body),
            },
        ),
    }
}

/// The entries sent among the first `i + 1` are those sent among the first
/// `i`, followed by the entry at `i` where that one is sent; their pairs and
/// their header fields grow in the same way.
proof fn lemma_active_grows(entries: Seq<Entry>, i: int)
    requires
        0 <= i < entries.len(),
    ensures
        active(entries.take(i + 1)) == if is_active(entries[i]) {
            active(entries.take(i)).push(entries[i])
        } else {
            active(entries.take(i))
        },
        is_active(entries[i]) ==> as_pairs(active(entries.take(i + 1))) == as_pairs(
            active(entries.take(i)),
        ).push((entries[i].key, entries[i].value)),
        is_active(entries[i]) ==> as_fields(active(entries.take(i + 1))) == as_fields(
            active(entries.take(i)),
        ).push(HeaderStep::Field { name: entries[i].key, value: entries[i].value }),
{
    reveal(Seq::filter);
    assert(entries.take(i + 1).drop_last() == entries.take(i));
}

/// Reads the name of a method. The name is matched exactly, in upper case.
pub fn parse_method(name: &str) -> (method: Option<HttpMethod>)
    ensures
        method == method_named(name@),
{
    if same_text(name, "GET") {
        Some(HttpMethod::Get)
    } else if same_text(name, "POST") {
        Some(HttpMethod::Post)
    } else if same_text(name, "PUT") {
        Some(HttpMethod::Put)
    } else if same_text(name, "DELETE") {
        Some(HttpMethod::Delete)
    } else if same_text(name, "PATCH") {
        Some(HttpMethod::Patch)
    } else if same_text(name, "HEAD") {
        Some(HttpMethod::Head)
    } else if same_text(name, "OPTIONS") {
        Some(HttpMethod::Options)
    } else {
        None
    }
}

/// The query pairs that are appended to the URL: key and value of every
/// parameter that is enabled and has a key, in order.
pub fn active_query(params: &Vec<QueryParam>) -> (pairs: Vec<(String, String)>)
    ensures
        pair_texts(pairs@) == as_pairs(active(param_entries(params@))),
{
    let n = params.len();
    let mut pairs: Vec<(String, String)> = Vec::new();
    let mut i: usize = 0;
    proof {
        reveal(Seq::filter);
    }
    while i < n
        invariant
            n == params@.len(),
            i <= n,
            pair_texts(pairs@) == as_pairs(active(param_entries(params@).take(i as int))),
        decreases n - i,
    {
        let p = &params[i];
        proof {
            lemma_active_grows(param_entries(params@), i as int);
        }
        if p.enabled && !p.key.as_str().is_empty() {
            let ghost before = pair_texts(pairs@);
            pairs.push((p.key.clone(), p.value.clone()));
            assert(pair_texts(pairs@) == before.push((p.key@, p.value@)));
        }
        i += 1;
    }
    proof {
        assert(param_entries(params@).take(n as int) == param_entries(params@));
    }
    pairs
}

/// A plain header field for every header that is enabled and has a key, in order.
pub fn active_headers(headers: &Vec<RequestHeader>) -> (steps: Vec<PlannedHeader>)
    ensures
        header_steps(steps@) == as_fields(active(header_entries(headers@))),
{
    let n = headers.len();
    let mut steps: Vec<PlannedHeader> = Vec::new();
    let mut i: usize = 0;
    proof {
        reveal(Seq::filter);
    }
    while i < n
        invariant
            n == headers@.len(),
            i <= n,
            header_steps(steps@) == as_fields(active(header_entries(headers@).take(i as int))),
        decreases n - i,
    {
        let h = &headers[i];
        proof {
            lemma_active_grows(header_entries(headers@), i as int);
        }
        if h.enabled && !h.key.as_str().is_empty() {
            let ghost before = header_steps(steps@);
            steps.push(PlannedHeader::Field { name: h.key.clone(), value: h.value.clone() });
            assert(header_steps(steps@) == before.push(
                HeaderStep::Field { name: h.key@, value: h.value@ },
            ));
        }
        i += 1;
    }
    proof {
        assert(header_entries(headers@).take(n as int) == header_entries(headers@));
    }
    steps
}

/// The header step by which `auth` authenticates, if it has one.
pub fn plan_auth(auth: &Option<Auth>) -> (step: Option<PlannedHeader>)
    ensures
        match step {
            Some(s) => auth_step(*auth) == Some(s@),
            None => auth_step(*auth) is None,
        },
{
    match auth {
        None => None,
        Some(a) => {
            let kind = a.auth_type.as_str();
            if same_text(kind, "bearer") {
                match &a.bearer_token {
                    Some(token) => {
                        let value = String::from_str("Bearer ").concat(token.as_str());
                        Some(PlannedHeader::Field { name: String::from_str("Authorization"), value })
                    },
                    None => None,
                }
            } else if same_text(kind, "basic") {
                match &a.basic_auth {
                    Some(basic) => Some(
                        PlannedHeader::Basic {
                            username: basic.username.clone(),
                            password: basic.password.clone(),
                        },
                    ),
                    None => None,
                }
            } else if same_text(kind, "api-key") {
                match &a.api_key {
                    Some(k) => {
                        if same_text(k.location.as_str(), "header") {
                            Some(PlannedHeader::Field { name: k.key.clone(), value: k.value.clone() })
                        } else {
                            None
                        }
                    },
                    None => None,
                }
            } else {
                None
            }
        },
    }
}

/// The content type that is announced for `body`, if any.
pub fn plan_content_type(body: &Option<RequestBody>) -> (step: Option<PlannedHeader>)
    ensures
        match step {
            Some(s) => content_type_step(content_type_of(*body)) == Some(s@),
            None => content_type_of(*body) is None,
        },
{
    match body {
        None => None,
        Some(b) => {
            let kind = b.body_type.as_str();
            if same_text(kind, "json") {
                Some(
                    PlannedHeader::Field {
                        name: String::from_str("Content-Type"),
                        value: String::from_str("application/json"),
                    },
                )
            } else if same_text(kind, "x-www-form-urlencoded") {
                Some(
                    PlannedHeader::Field {
                        name: String::from_str("Content-Type"),
                        value: String::from_str("application/x-www-form-urlencoded"),
                    },
                )
            } else {
                None
            }
        },
    }
}

/// The text that is sent as the body, if any.
pub fn plan_body(body: &Option<RequestBody>) -> (text: Option<String>)
    ensures
        match text {
            Some(t) => body_text(*body) == Some(t@),
            None => body_text(*body) is None,
        },
{
    match body {
        None => None,
        Some(b) => {
            let kind = b.body_type.as_str();
            if same_text(kind, "json") || same_text(kind, "raw") || same_text(
                kind,
                "x-www-form-urlencoded",
            ) {
                Some(b.content.clone())
            } else {
                None
            }
        },
    }
}

/// Plans a request. Fails exactly when the method is not supported.
pub fn plan_request(
    method: &str,
    query_params: &Vec<QueryParam>,
    headers: &Vec<RequestHeader>,
    auth: &Option<Auth>,
    body: &Option<RequestBody>,
) -> (plan: Result<RequestPlan, RequestError>)
    ensures
        match plan {
            Ok(p) => planned(method@, query_params@, headers@, *auth, *body) == Ok::<
                PlanModel,
                RequestError,
            >(p@),
            Err(e) => planned(method@, query_params@, headers@, *auth, *body) == Err::<
                PlanModel,
                RequestError,
            >(e),
        },
{
    let m = match parse_method(method) {
        Some(m) => m,
        None => { return Err(RequestError::UnsupportedMethod); },
    };
    let query = active_query(query_params);
    let mut steps = active_headers(headers);
    let ghost fields = header_steps(steps@);
    match plan_auth(auth) {
        Some(step) => { steps.push(step); },
        None => {},
    }
    assert(header_steps(steps@) == fields + one_or_none(auth_step(*auth)));
    let ghost with_auth = header_steps(steps@);
    match plan_content_type(body) {
        Some(step) => { steps.push(step); },
        None => {},
    }
    assert(header_steps(steps@) == with_auth + one_or_none(
        content_type_step(content_type_of(*body)),
    ));
    let text = plan_body(body);
    Ok(RequestPlan { method: m, query, headers: steps, body: text })
}

} // verus!
