//! Endpoint configuration: which base URL and API flavour a client talks to,
//! and the routes it calls. Resolved once at construction, never per call.

use vstd::prelude::*;
use vstd::string::*;

verus! {

/// Which flavour of the API a client is configured for: one of the fixed
/// versioned prefixes, or an arbitrary URL taken verbatim.
#[derive(Clone, Debug, PartialEq, Eq)]
pub enum EndPoint {
    V1,
    V1Beta,
    CustomUrl(String),
}

/// The path prefix an endpoint contributes to the base URL.
pub open spec fn endpoint_path_spec(e: EndPoint) -> Seq<char> {
    match e {
        EndPoint::V1 => "/v1"@,
        EndPoint::V1Beta => "/v1beta"@,
        EndPoint::CustomUrl(u) => u@,
    }
}

impl EndPoint {
    /// The endpoint's path prefix (for a custom endpoint, the URL itself).
    pub fn path(&self) -> (r: String)
        ensures
            r@ == endpoint_path_spec(*self),
    {
        match self {
            EndPoint::V1 => "/v1".to_owned(),
            EndPoint::V1Beta => "/v1beta".to_owned(),
            EndPoint::CustomUrl(u) => u.clone(),
        }
    }
}

/// A route below the configured base URL.
#[derive(Clone, Copy, Debug, PartialEq, Eq, Structural)]
pub enum Route {
    Health,
    ChatCompletions,
}

/// The path of a route.
pub open spec fn route_path_spec(r: Route) -> Seq<char> {
    match r {
        Route::Health => "/health"@,
        Route::ChatCompletions => "/chat/completions"@,
    }
}

impl Route {
    /// The route's path.
    pub fn path(&self) -> (r: String)
        ensures
            r@ == route_path_spec(*self),
    {
        match self {
            Route::Health => "/health".to_owned(),
            Route::ChatCompletions => "/chat/completions".to_owned(),
        }
    }
}

/// Joins a base URL and a path.
pub fn get_api_url(url: &str, path: &str) -> (r: String)
    ensures
        r@ == url@ + path@,
{
    let mut joined = url.to_owned();
    joined.append(path);
    joined
}

/// The base URL a client resolves at construction: a custom endpoint is taken
/// verbatim, a fixed one is appended to the server URL.
pub open spec fn client_base_spec(api_url: Seq<char>, e: EndPoint) -> Seq<char> {
    match e {
        EndPoint::CustomUrl(u) => u@,
        _ => api_url + endpoint_path_spec(e),
    }
}

/// The resolved address of one server endpoint. It owns no transport: the
/// embedding application opens connections against the URLs computed here.
#[derive(Clone, Debug)]
pub struct TabbyClient {
    pub base_url: String,
}

impl Default for TabbyClient {
    /// A client against the bare stable prefix, with no server URL.
    fn default() -> (c: Self)
        ensures
            c.base_url@ == "/v1"@,
    {
        TabbyClient { base_url: "/v1".to_owned() }
    }
}

impl TabbyClient {
    /// Resolves the base URL for `endpoint` under `api_url`.
    pub fn new(api_url: &str, endpoint: &EndPoint) -> (c: Self)
        ensures
            c.base_url@ == client_base_spec(api_url@, *endpoint),
    {
        match endpoint {
            EndPoint::CustomUrl(u) => TabbyClient { base_url: u.clone() },
            _ => TabbyClient { base_url: get_api_url(api_url, endpoint.path().as_str()) },
        }
    }

    /// The URL of the health route.
    pub fn health_url(&self) -> (r: String)
        ensures
            r@ == self.base_url@ + "/health"@,
    {
        get_api_url(self.base_url.as_str(), "/health")
    }

    /// The URL of the chat-completions route.
    pub fn completions_url(&self) -> (r: String)
        ensures
            r@ == self.base_url@ + "/chat/completions"@,
    {
        get_api_url(self.base_url.as_str(), "/chat/completions")
    }
}

} // verus!
