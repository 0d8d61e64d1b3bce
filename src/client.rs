use vstd::prelude::*;
use vstd::string::*;
use crate::auth::AuthMethod;
use crate::data::{names_ascending, Gist};
use crate::utils::{get_name, get_version, spec_name, spec_version};

verus! {

/// The media type asked of GitHub.
pub open spec fn accept_value() -> Seq<char> {
    "application/vnd.github.v3+json"@
}

/// The `User-Agent` header: the program's name and version.
pub open spec fn user_agent_value() -> Seq<char> {
    spec_name() + "/"@ + spec_version()
}

/// HTTP method of a request.
#[derive(Debug, PartialEq)]
pub enum Method {
    Post,
    Delete,
}

/// A request to GitHub, ready to be sent.
#[derive(Debug, PartialEq)]
pub struct Request {
    pub method: Method,
    pub url: String,
    /// The `Accept` header
    pub accept: String,
    /// The `User-Agent` header
    pub user_agent: String,
    /// The credentials, sent in the `Authorization` header
    pub auth: AuthMethod,
    /// The Gist, sent as JSON
    pub body: Option<Gist>,
}

impl AuthMethod {
    /// A copy of these credentials.
    pub fn duplicate(&self) -> (r: AuthMethod)
        ensures
            r == *self,
    {
        match self {
            AuthMethod::BasicAuth { username, token } => AuthMethod::BasicAuth {
                username: username.clone(),
                token: token.clone(),
            },
        }
    }
}

/// The `Accept` header value.
fn accept_header() -> (r: String)
    ensures
        r@ == accept_value(),
{
    String::from_str("application/vnd.github.v3+json")
}

/// The `User-Agent` header value.
fn user_agent_header() -> (r: String)
    ensures
        r@ == user_agent_value(),
{
    let mut r = String::from_str(get_name());
    r.append("/");
    r.append(get_version());
    r
}

/// HTTP client for interacting with GitHub's API.
#[derive(Debug, PartialEq)]
pub struct Client {
    pub base_url: String,
    pub auth_method: AuthMethod,
}

impl Client {
    /// Constructs a new client with a fixed base URL and authentication method.
    pub fn new(base_url: String, auth_method: AuthMethod) -> (r: Client)
        ensures
            r.base_url == base_url,
            r.auth_method == auth_method,
    {
        Client { base_url, auth_method }
    }

    /// The request that creates `gist`: a POST to `{base}/gists` with the Gist as body.
    pub fn create(&self, gist: Gist) -> (r: Request)
        ensures
            r.method == Method::Post,
            r.url@ == self.base_url@ + "/gists"@,
            r.accept@ == accept_value(),
            r.user_agent@ == user_agent_value(),
            r.auth == self.auth_method,
            r.body == Some(gist),
            names_ascending(gist.spec_files()),
    {
        let _ = gist.files();
        let mut url = self.base_url.clone();
        url.append("/gists");
        Request {
            method: Method::Post,
            url,
            accept: accept_header(),
            user_agent: user_agent_header(),
            auth: self.auth_method.duplicate(),
            body: Some(gist),
        }
    }

    /// The request that deletes the Gist `gist_id`: a DELETE to `{base}/gists/{gist_id}`,
    /// without body.
    pub fn delete(&self, gist_id: &str) -> (r: Request)
        ensures
            r.method == Method::Delete,
            r.url@ == self.base_url@ + "/gists/"@ + gist_id@,
            r.accept@ == accept_value(),
            r.user_agent@ == user_agent_value(),
            r.auth == self.auth_method,
            r.body is None,
    {
        let mut url = self.base_url.clone();
        url.append("/gists/");
        url.append(gist_id);
        Request {
            method: Method::Delete,
            url,
            accept: accept_header(),
            user_agent: user_agent_header(),
            auth: self.auth_method.duplicate(),
            body: None,
        }
    }
}

} // verus!
