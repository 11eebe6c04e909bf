//! The client: how it is set up, the requests that it makes of a list of
//! parameters, and how it learns who it is logged in as.
//!
//! Nothing here is sent.  A [`Request`] says what to send, and the caller
//! sends it.

use crate::error::MwError;
use crate::header::{bearer, bearer_text, header_bytes, header_text};
use crate::params::{standard_fields, text_field, views, Field, FieldView, Params, Standard};
use crate::ua::{agent, UA};
use vstd::prelude::*;
use vstd::utf8::encode_utf8;

verus! {

/// How a request carries its fields.
#[derive(Debug)]
pub enum Method {
    /// In the query of the address.
    Get,
    /// In the body, as a form.
    Post,
}

/// A request that is ready to be sent.
#[derive(Debug)]
pub struct Request {
    pub method: Method,
    pub url: String,
    pub fields: Vec<Field>,
}

/// What a [`Request`] stands for.
pub struct RequestView {
    pub method: Method,
    pub url: Seq<char>,
    pub fields: Seq<FieldView>,
}

impl View for Request {
    type V = RequestView;

    open spec fn view(&self) -> RequestView {
        RequestView { method: self.method, url: self.url@, fields: views(self.fields@) }
    }
}

/// The user agent of a client for which `chosen` was chosen.
pub open spec fn agent_of(chosen: Option<Seq<char>>) -> Seq<char> {
    match chosen {
        Some(name) => name,
        None => UA@,
    }
}

/// Collects what a client needs before it is made.
pub struct ClientBuilder {
    url: String,
    ua: Option<String>,
}

/// What a [`ClientBuilder`] stands for.
pub struct ClientBuilderView {
    pub url: Seq<char>,
    pub ua: Option<Seq<char>>,
}

impl View for ClientBuilder {
    type V = ClientBuilderView;

    closed spec fn view(&self) -> ClientBuilderView {
        ClientBuilderView {
            url: self.url@,
            ua: match self.ua {
                Some(name) => Some(name@),
                None => None,
            },
        }
    }
}

/// What a [`Client`] stands for.
pub struct ClientView {
    /// The address of the API.
    pub url: Seq<char>,
    /// The user agent that goes with every request.
    pub agent: Seq<char>,
    /// Whether cookies of the server are kept.
    pub cookies: bool,
    /// The bytes of the `Authorization` header that goes with every request,
    /// if there is one.
    pub authorization: Option<Seq<u8>>,
}

/// The settings of a client of one API.
pub struct Client {
    url: String,
    agent: String,
    cookies: bool,
    authorization: Option<reqwest::header::HeaderValue>,
}

impl View for Client {
    type V = ClientView;

    closed spec fn view(&self) -> ClientView {
        ClientView {
            url: self.url@,
            agent: self.agent@,
            cookies: self.cookies,
            authorization: match self.authorization {
                Some(value) => Some(header_bytes(value)),
                None => None,
            },
        }
    }
}

impl ClientBuilder {
    /// A builder for a client of the API at `url`.
    pub fn new(url: &str) -> (builder: ClientBuilder)
        ensures
            builder@ == (ClientBuilderView { url: url@, ua: None }),
    {
        ClientBuilder { url: url.to_owned(), ua: None }
    }

    /// Chooses the user agent.
    pub fn user_agent(self, ua: &str) -> (builder: ClientBuilder)
        ensures
            builder@ == (ClientBuilderView { url: self@.url, ua: Some(ua@) }),
    {
        ClientBuilder { url: self.url, ua: Some(ua.to_owned()) }
    }

    /// The user agent that the client will send.
    fn agent(&self) -> (out: String)
        ensures
            out@ == agent_of(self@.ua),
    {
        match &self.ua {
            Some(name) => agent(Some(name.as_str())).to_owned(),
            None => agent(None).to_owned(),
        }
    }

    /// A client that does not log in.
    pub fn anonymous(self) -> (client: Client)
        ensures
            client@ == (ClientView {
                url: self@.url,
                agent: agent_of(self@.ua),
                cookies: false,
                authorization: None,
            }),
    {
        let agent = self.agent();
        Client { url: self.url, agent, cookies: false, authorization: None }
    }

    /// A client that presents the given OAuth token with every request.  A
    /// token with a character that cannot be sent in a header is refused.
    /// Whether the server accepts the token is for the caller to find out,
    /// with [`userinfo_query`].
    pub fn login_oauth(self, token: &str) -> (out: Result<Client, MwError>)
        ensures
            out is Ok <==> header_text(token@),
            out matches Ok(client) ==> client@ == (ClientView {
                url: self@.url,
                agent: agent_of(self@.ua),
                cookies: false,
                authorization: Some(encode_utf8(bearer_text(token@))),
            }),
            out matches Err(e) ==> e is InvalidHeaderValue,
    {
        let agent = self.agent();
        match bearer(token) {
            Ok(value) => Ok(
                Client { url: self.url, agent, cookies: false, authorization: Some(value) },
            ),
            Err(e) => Err(e),
        }
    }
}

/// A client together with the address that it talks to.
#[derive(Clone, Copy)]
pub struct ClientRef<'a> {
    client: &'a Client,
    url: &'a str,
}

impl<'a> ClientRef<'a> {
    /// The client.
    pub closed spec fn client(&self) -> Client {
        *self.client
    }

    /// The address.
    pub closed spec fn url(&self) -> Seq<char> {
        self.url@
    }

    /// The settings of the client.
    pub fn settings(&self) -> (client: &'a Client)
        ensures
            *client == self.client(),
    {
        self.client
    }

    /// The request that carries exactly `query`, in the address.
    pub fn send(&self, query: Vec<Field>) -> (request: Request)
        ensures
            request@ == (RequestView { method: Method::Get, url: self.url(), fields: views(query@) }),
    {
        Request { method: Method::Get, url: self.url.to_owned(), fields: query }
    }

    /// The request that asks with the given parameters: the complete query
    /// for them, in the address.
    pub fn get<P: Params>(&self, params: P) -> (request: Request)
        ensures
            request@ == (RequestView {
                method: Method::Get,
                url: self.url(),
                fields: standard_fields(params.fields()),
            }),
    {
        self.send(Standard(params).serialize())
    }

    /// The request that submits the given parameters: the complete query for
    /// them, as a form.
    pub fn post<P: Params>(&self, params: P) -> (request: Request)
        ensures
            request@ == (RequestView {
                method: Method::Post,
                url: self.url(),
                fields: standard_fields(params.fields()),
            }),
    {
        Request {
            method: Method::Post,
            url: self.url.to_owned(),
            fields: Standard(params).serialize(),
        }
    }
}

impl Client {
    /// The address of the API.
    pub fn url(&self) -> (url: &str)
        ensures
            url@ == self@.url,
    {
        self.url.as_str()
    }

    /// The user agent that goes with every request.
    pub fn agent(&self) -> (agent: &str)
        ensures
            agent@ == self@.agent,
    {
        self.agent.as_str()
    }

    /// Whether cookies of the server are kept.
    pub fn cookies(&self) -> (cookies: bool)
        ensures
            cookies == self@.cookies,
    {
        self.cookies
    }

    /// The `Authorization` header that goes with every request, if any.
    pub fn authorization(&self) -> (value: Option<&reqwest::header::HeaderValue>)
        ensures
            value is Some <==> self@.authorization is Some,
            value matches Some(v) ==> self@.authorization == Some(header_bytes(*v)),
    {
        self.authorization.as_ref()
    }

    /// This client, talking to another address.
    pub fn with_url<'a>(&'a self, url: &'a str) -> (target: ClientRef<'a>)
        ensures
            target.client() == *self,
            target.url() == url@,
    {
        ClientRef { client: self, url }
    }

    /// The request that asks the API with the given parameters.
    pub fn get<P: Params>(&self, params: P) -> (request: Request)
        ensures
            request@ == (RequestView {
                method: Method::Get,
                url: self@.url,
                fields: standard_fields(params.fields()),
            }),
    {
        self.with_url(self.url.as_str()).get(params)
    }

    /// The request that submits the given parameters to the API.
    pub fn post<P: Params>(&self, params: P) -> (request: Request)
        ensures
            request@ == (RequestView {
                method: Method::Post,
                url: self@.url,
                fields: standard_fields(params.fields()),
            }),
    {
        self.with_url(self.url.as_str()).post(params)
    }
}

/// The query that asks the server who the client is logged in as.
pub fn userinfo_query() -> (query: [(&'static str, &'static str); 3])
    ensures
        query.fields() == seq![
            text_field("action"@, "query"@),
            text_field("meta"@, "userinfo"@),
            text_field("uiprop"@, ""@),
        ],
{
    let query = [("action", "query"), ("meta", "userinfo"), ("uiprop", "")];
    proof {
        assert(query.fields() =~= seq![
            text_field("action"@, "query"@),
            text_field("meta"@, "userinfo"@),
            text_field("uiprop"@, ""@),
        ]);
    }
    query
}

/// What the answer to [`userinfo_query`] means.  The server calls a client
/// that is not logged in by its network address, so a name that reads as an
/// address of either kind means that the login failed; any other name is the
/// user name of the client.
pub fn logged_in(name: String, is_ipv4: bool, is_ipv6: bool) -> (out: Result<String, MwError>)
    ensures
        is_ipv4 || is_ipv6 ==> out == Err::<String, MwError>(MwError::Unauthorized),
        !(is_ipv4 || is_ipv6) ==> out == Ok::<String, MwError>(name),
{
    if is_ipv4 || is_ipv6 {
        Err(MwError::Unauthorized)
    } else {
        Ok(name)
    }
}

} // verus!
