//! A client for the monitoring provider's inventory API: credentials, the
//! requests it sends, and the decoding of what comes back.
use vstd::prelude::*;
use crate::environment::strings_view;
use crate::json::{field, get_field, get_strings, string_list, Json};

verus! {

/// The root under which every endpoint lives.
pub const API_URL: &'static str = "https://api.datadoghq.com/api/v1/";

pub const API_KEY_VAR: &'static str = "DATADOG_API_KEY";

pub const APP_KEY_VAR: &'static str = "DATADOG_APP_KEY";

/// What a free-text search returns: metric names and host names, as sent.
#[derive(Debug, Clone, PartialEq, Eq)]
pub struct SearchResults {
    pub metrics: Vec<String>,
    pub hosts: Vec<String>,
}

/// Why an API call failed.
#[derive(Debug, Clone, PartialEq, Eq)]
pub enum ApiError {
    /// The request could not be sent or its answer not received.
    Transport(String),
    /// The server answered with a status outside 200..300.
    Http(u16),
    /// The body is not JSON of the expected shape.
    Decode(String),
}

/// A required credential is not configured.
#[derive(Debug, Clone, PartialEq, Eq)]
pub enum ConfigError {
    /// Names the variable that is missing.
    Missing(String),
}

/// A GET request: the full URL and its query parameters, in order.
#[derive(Debug, Clone, PartialEq, Eq)]
pub struct Request {
    pub url: String,
    pub query: Vec<(String, String)>,
}

pub open spec fn pairs_view(q: Seq<(String, String)>) -> Seq<(Seq<char>, Seq<char>)> {
    q.map_values(|p: (String, String)| (p.0@, p.1@))
}

impl View for Request {
    type V = (Seq<char>, Seq<(Seq<char>, Seq<char>)>);

    open spec fn view(&self) -> Self::V {
        (self.url@, pairs_view(self.query@))
    }
}

/// Holds the two keys that authenticate every request.
#[derive(Debug, Clone, PartialEq, Eq)]
pub struct Client {
    api_key: String,
    app_key: String,
}

pub open spec fn query_text(query: Option<&str>) -> Seq<char> {
    match query {
        Some(q) => q@,
        None => Seq::empty(),
    }
}

impl Client {
    pub closed spec fn api_key_view(&self) -> Seq<char> {
        self.api_key@
    }

    pub closed spec fn app_key_view(&self) -> Seq<char> {
        self.app_key@
    }

    /// The request for `path` under the API root, with both keys attached.
    pub open spec fn request_spec(&self, path: Seq<char>) -> (Seq<char>, Seq<(Seq<char>, Seq<char>)>) {
        (
            API_URL@ + path,
            seq![("api_key"@, self.api_key_view()), ("application_key"@, self.app_key_view())],
        )
    }

    pub fn new(api_key: String, app_key: String) -> (r: Client)
        ensures
            r.api_key_view() == api_key@,
            r.app_key_view() == app_key@,
    {
        Client { api_key, app_key }
    }

    pub fn api_key(&self) -> (r: &str)
        ensures
            r@ == self.api_key_view(),
    {
        self.api_key.as_str()
    }

    pub fn app_key(&self) -> (r: &str)
        ensures
            r@ == self.app_key_view(),
    {
        self.app_key.as_str()
    }

    fn get(&self, path: &str) -> (r: Request)
        ensures
            r@ == self.request_spec(path@),
    {
        let url = API_URL.to_owned().concat(path);
        let mut query: Vec<(String, String)> = Vec::new();
        query.push(("api_key".to_owned(), self.api_key.clone()));
        query.push(("application_key".to_owned(), self.app_key.clone()));
        assert(pairs_view(query@) =~= self.request_spec(path@).1);
        Request { url, query }
    }

    /// The search request; an absent query is sent as the empty string.
    pub fn search_request(&self, query: Option<&str>) -> (r: Request)
        ensures
            r@.0 == API_URL@ + "search"@,
            r@.1 == self.request_spec("search"@).1.push(("q"@, query_text(query))),
    {
        let mut r = self.get("search");
        let q = match query {
            Some(q) => q.to_owned(),
            None => String::new(),
        };
        r.query.push(("q".to_owned(), q));
        assert(pairs_view(r.query@) =~= self.request_spec("search"@).1.push(("q"@, query_text(query))));
        r
    }

    /// The request for the tags of every host.
    pub fn tags_request(&self) -> (r: Request)
        ensures
            r@ == self.request_spec("tags/hosts"@),
    {
        self.get("tags/hosts")
    }

    /// The request for the tags of `host`, appended to the path as given.
    pub fn host_tags_request(&self, host: &str) -> (r: Request)
        ensures
            r@ == self.request_spec("tags/hosts/"@ + host@),
    {
        let path = "tags/hosts/".to_owned().concat(host);
        self.get(path.as_str())
    }
}

/// Builds a client from the two configured keys, failing with the name of the
/// first one missing; without a client no request can be made.
pub fn client_from_keys(api_key: Option<String>, app_key: Option<String>) -> (r: Result<Client, ConfigError>)
    ensures
        match (api_key, app_key) {
            (Some(a), Some(b)) => r matches Ok(c) && c.api_key_view() == a@ && c.app_key_view() == b@,
            (None, _) => r matches Err(ConfigError::Missing(n)) && n@ == API_KEY_VAR@,
            (Some(_), None) => r matches Err(ConfigError::Missing(n)) && n@ == APP_KEY_VAR@,
        },
{
    match api_key {
        None => Err(ConfigError::Missing(API_KEY_VAR.to_owned())),
        Some(a) => match app_key {
            None => Err(ConfigError::Missing(APP_KEY_VAR.to_owned())),
            Some(b) => Ok(Client::new(a, b)),
        },
    }
}

/// The strings of the array held by member `key` of `j`.
pub open spec fn strings_at(j: Json, key: Seq<char>) -> Option<Seq<Seq<char>>> {
    match field(j, key) {
        Some(v) => string_list(v),
        None => None,
    }
}

/// `{"results": {"metrics": [..], "hosts": [..]}}`: the metric and host names.
pub open spec fn search_body(body: Json) -> Option<(Seq<Seq<char>>, Seq<Seq<char>>)> {
    match field(body, "results"@) {
        Some(res) => match (strings_at(res, "metrics"@), strings_at(res, "hosts"@)) {
            (Some(m), Some(h)) => Some((m, h)),
            _ => None,
        },
        None => None,
    }
}

pub open spec fn tag_list(j: Json) -> Seq<Seq<char>> {
    match string_list(j) {
        Some(t) => t,
        None => Seq::empty(),
    }
}

/// `{"tags": {host: [tag, ..], ..}}`: each host with its tags, in member order.
pub open spec fn tags_body(body: Json) -> Option<Seq<(Seq<char>, Seq<Seq<char>>)>> {
    match field(body, "tags"@) {
        Some(Json::Object(members)) => if forall|i: int|
            0 <= i < members@.len() ==> #[trigger] string_list(members@[i].1) is Some {
            Some(members@.map_values(|m: (String, Json)| (m.0@, tag_list(m.1))))
        } else {
            None
        },
        _ => None,
    }
}

/// `{"tags": [tag, ..]}`: the tags of one host.
pub open spec fn host_tags_body(body: Json) -> Option<Seq<Seq<char>>> {
    strings_at(body, "tags"@)
}

pub open spec fn tags_view(t: Seq<(String, Vec<String>)>) -> Seq<(Seq<char>, Seq<Seq<char>>)> {
    t.map_values(|p: (String, Vec<String>)| (p.0@, strings_view(p.1@)))
}

fn get_strings_at(j: &Json, key: &str) -> (r: Option<Vec<String>>)
    ensures
        match r {
            Some(v) => strings_at(*j, key@) == Some(strings_view(v@)),
            None => strings_at(*j, key@) is None,
        },
{
    match get_field(j, key) {
        Some(v) => get_strings(v),
        None => None,
    }
}

fn decode_error(what: &str) -> (r: ApiError)
    ensures
        r is Decode,
{
    ApiError::Decode("unexpected response body: ".to_owned().concat(what))
}

/// Decodes the body of a search answer.
pub fn decode_search(body: &Json) -> (r: Result<SearchResults, ApiError>)
    ensures
        match r {
            Ok(s) => search_body(*body) == Some((strings_view(s.metrics@), strings_view(s.hosts@))),
            Err(e) => search_body(*body) is None && e is Decode,
        },
{
    let results = match get_field(body, "results") {
        Some(v) => v,
        None => {
            return Err(decode_error("missing field `results`"));
        },
    };
    let metrics = match get_strings_at(results, "metrics") {
        Some(m) => m,
        None => {
            return Err(decode_error("`results.metrics` is not a list of strings"));
        },
    };
    let hosts = match get_strings_at(results, "hosts") {
        Some(h) => h,
        None => {
            return Err(decode_error("`results.hosts` is not a list of strings"));
        },
    };
    Ok(SearchResults { metrics, hosts })
}

/// Decodes the body of an answer listing the tags of every host.
pub fn decode_tags(body: &Json) -> (r: Result<Vec<(String, Vec<String>)>, ApiError>)
    ensures
        match r {
            Ok(t) => tags_body(*body) == Some(tags_view(t@)),
            Err(e) => tags_body(*body) is None && e is Decode,
        },
{
    let members = match get_field(body, "tags") {
        Some(Json::Object(members)) => members,
        _ => {
            return Err(decode_error("`tags` is not an object"));
        },
    };
    let mut out: Vec<(String, Vec<String>)> = Vec::new();
    let mut i: usize = 0;
    while i < members.len()
        invariant
            i <= members@.len(),
            field(*body, "tags"@) == Some(Json::Object(*members)),
            out@.len() == i,
            forall|k: int| 0 <= k < i ==> #[trigger] string_list(members@[k].1) is Some,
            forall|k: int|
                0 <= k < i ==> (#[trigger] out@[k]).0@ == members@[k].0@
                    && strings_view(out@[k].1@) == tag_list(members@[k].1),
        decreases members@.len() - i,
    {
        match get_strings(&members[i].1) {
            Some(tags) => {
                out.push((members[i].0.clone(), tags));
            },
            None => {
                return Err(decode_error("a host's tags are not a list of strings"));
            },
        }
        i += 1;
    }
    assert(tags_view(out@) =~= members@.map_values(|m: (String, Json)| (m.0@, tag_list(m.1))));
    Ok(out)
}

/// Decodes the body of an answer listing the tags of one host.
pub fn decode_host_tags(body: &Json) -> (r: Result<Vec<String>, ApiError>)
    ensures
        match r {
            Ok(t) => host_tags_body(*body) == Some(strings_view(t@)),
            Err(e) => host_tags_body(*body) is None && e is Decode,
        },
{
    match get_strings_at(body, "tags") {
        Some(t) => Ok(t),
        None => Err(decode_error("`tags` is not a list of strings")),
    }
}

pub open spec fn is_success(status: u16) -> bool {
    200 <= status < 300
}

/// What an answer yields before its body is decoded: a failing status wins,
/// then a body that did not parse as JSON.
pub open spec fn accepted(status: u16, body: Result<Json, String>, r: Result<Json, ApiError>) -> bool {
    if !is_success(status) {
        r matches Err(ApiError::Http(s)) && s == status
    } else {
        match body {
            Ok(j) => r == Ok::<Json, ApiError>(j),
            Err(m) => r matches Err(ApiError::Decode(x)) && x@ == m@,
        }
    }
}

/// Checks the status of an answer and passes on its parsed body.
pub fn accept(status: u16, body: Result<Json, String>) -> (r: Result<Json, ApiError>)
    ensures
        accepted(status, body, r),
{
    if status < 200 || status >= 300 {
        return Err(ApiError::Http(status));
    }
    match body {
        Ok(j) => Ok(j),
        Err(m) => Err(ApiError::Decode(m)),
    }
}

/// The outcome of a search, from the answer's status and parsed body.
pub fn search_response(status: u16, body: Result<Json, String>) -> (r: Result<SearchResults, ApiError>)
    ensures
        !is_success(status) ==> (r matches Err(ApiError::Http(s)) && s == status),
        is_success(status) ==> match body {
            Err(m) => r matches Err(ApiError::Decode(x)) && x@ == m@,
            Ok(j) => match search_body(j) {
                Some(p) => r matches Ok(s) && (strings_view(s.metrics@), strings_view(s.hosts@)) == p,
                None => r matches Err(ApiError::Decode(_)),
            },
        },
{
    match accept(status, body) {
        Ok(j) => decode_search(&j),
        Err(e) => Err(e),
    }
}

/// The outcome of listing every host's tags, from the answer's status and body.
pub fn tags_response(status: u16, body: Result<Json, String>) -> (r: Result<Vec<(String, Vec<String>)>, ApiError>)
    ensures
        !is_success(status) ==> (r matches Err(ApiError::Http(s)) && s == status),
        is_success(status) ==> match body {
            Err(m) => r matches Err(ApiError::Decode(x)) && x@ == m@,
            Ok(j) => match tags_body(j) {
                Some(t) => r matches Ok(v) && tags_view(v@) == t,
                None => r matches Err(ApiError::Decode(_)),
            },
        },
{
    match accept(status, body) {
        Ok(j) => decode_tags(&j),
        Err(e) => Err(e),
    }
}

/// The outcome of listing one host's tags, from the answer's status and body.
pub fn host_tags_response(status: u16, body: Result<Json, String>) -> (r: Result<Vec<String>, ApiError>)
    ensures
        !is_success(status) ==> (r matches Err(ApiError::Http(s)) && s == status),
        is_success(status) ==> match body {
            Err(m) => r matches Err(ApiError::Decode(x)) && x@ == m@,
            Ok(j) => match host_tags_body(j) {
                Some(t) => r matches Ok(v) && strings_view(v@) == t,
                None => r matches Err(ApiError::Decode(_)),
            },
        },
{
    match accept(status, body) {
        Ok(j) => decode_host_tags(&j),
        Err(e) => Err(e),
    }
}

} // verus!
