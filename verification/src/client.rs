use vstd::prelude::*;
use crate::command::{Command, pairs_view};
use crate::text::{text_of, copy_text, push_all};

verus! {

/// The default service root.
pub open spec fn spec_default_base_url() -> Seq<char> {
    "https://api.themoviedb.org/3"@
}

/// The long-lived call context: where to send requests and the credential
/// injected into every one of them. Immutable once built, so it can be
/// shared freely across concurrent calls.
#[derive(Debug)]
pub struct Client {
    pub base_url: Vec<char>,
    pub api_key: Vec<char>,
}

pub struct ClientView {
    pub base_url: Seq<char>,
    pub api_key: Seq<char>,
}

impl View for Client {
    type V = ClientView;

    open spec fn view(&self) -> ClientView {
        ClientView { base_url: self.base_url@, api_key: self.api_key@ }
    }
}

/// Why a client could not be built.
#[derive(Debug, PartialEq, Eq, Structural)]
pub enum ClientBuilderError {
    MissingApiKey,
}

/// Accumulates the pieces of a `Client`; only the credential is mandatory.
#[derive(Debug)]
pub struct ClientBuilder {
    pub api_key: Option<Vec<char>>,
    pub base_url: Option<Vec<char>>,
}

impl ClientBuilder {
    pub fn new() -> (r: ClientBuilder)
        ensures
            r.api_key is None,
            r.base_url is None,
    {
        ClientBuilder { api_key: None, base_url: None }
    }

    pub fn with_api_key(self, value: Vec<char>) -> (r: ClientBuilder)
        ensures
            r.api_key == Some(value),
            r.base_url == self.base_url,
    {
        ClientBuilder { api_key: Some(value), ..self }
    }

    pub fn with_base_url(self, value: Vec<char>) -> (r: ClientBuilder)
        ensures
            r.base_url == Some(value),
            r.api_key == self.api_key,
    {
        ClientBuilder { base_url: Some(value), ..self }
    }

    /// Fails exactly when no credential was given; a missing base URL falls
    /// back to the default service root.
    pub fn build(self) -> (r: Result<Client, ClientBuilderError>)
        ensures
            (match r {
                Ok(c) => self.api_key matches Some(k) && c@.api_key == k@ && c@.base_url == (
                match self.base_url {
                    Some(u) => u@,
                    None => spec_default_base_url(),
                }),
                Err(e) => self.api_key is None && e == ClientBuilderError::MissingApiKey,
            }),
    {
        match self.api_key {
            None => Err(ClientBuilderError::MissingApiKey),
            Some(key) => {
                let base = match self.base_url {
                    Some(u) => u,
                    None => text_of("https://api.themoviedb.org/3"),
                };
                Ok(Client { base_url: base, api_key: key })
            },
        }
    }
}

impl Client {
    /// A client for the default service root.
    pub fn new(api_key: Vec<char>) -> (r: Client)
        ensures
            r@.api_key == api_key@,
            r@.base_url == spec_default_base_url(),
    {
        Client { base_url: text_of("https://api.themoviedb.org/3"), api_key }
    }

    pub fn builder() -> (r: ClientBuilder)
        ensures
            r.api_key is None,
            r.base_url is None,
    {
        ClientBuilder::new()
    }

    /// The full request URL: the service root followed by a command's path.
    pub fn request_url(&self, path: &Vec<char>) -> (r: Vec<char>)
        ensures
            r@ == self@.base_url + path@,
    {
        let mut url = copy_text(&self.base_url);
        push_all(&mut url, path);
        url
    }

    /// A command's parameters with the credential appended as the `api_key`
    /// query parameter; nothing else is added or reordered.
    pub fn authenticated_params(&self, params: Vec<(Vec<char>, Vec<char>)>) -> (r: Vec<
        (Vec<char>, Vec<char>),
    >)
        ensures
            pairs_view(r@) == pairs_view(params@).push(("api_key"@, self@.api_key)),
    {
        let ghost p0 = params@;
        let mut out = params;
        let key = text_of("api_key");
        let value = copy_text(&self.api_key);
        out.push((key, value));
        proof {
            assert(out@.drop_last() =~= p0);
            assert(pairs_view(out@) =~= pairs_view(p0).push(("api_key"@, self@.api_key)));
        }
        out
    }
}


/// Everything the transport needs for one call: the full URL and the
/// command's parameters with the credential appended.
pub fn prepare<C: Command>(client: &Client, cmd: &C) -> (r: (Vec<char>, Vec<(Vec<char>, Vec<char>)>))
    ensures
        r.0@ == client@.base_url + cmd.spec_path(),
        pairs_view(r.1@) == cmd.spec_params().push(("api_key"@, client@.api_key)),
{
    let path = cmd.path();
    let url = client.request_url(&path);
    let params = cmd.params();
    let query = client.authenticated_params(params);
    (url, query)
}

} // verus!
