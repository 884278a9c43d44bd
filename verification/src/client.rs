//! The upstream session and its lifecycle: made once at startup from a base
//! URL and a set of default headers, and only read afterwards.

use crate::text::text_of;
use vstd::prelude::*;
use vstd::string::*;

verus! {

/// What ties the gateway to its upstream service: one base URL and the
/// headers that go with every request.
#[derive(Debug, Clone, PartialEq, Eq)]
pub struct UpstreamSession {
    base_url: String,
    default_headers: Vec<(String, String)>,
}

/// Why an upstream session could not be installed.
#[derive(Debug, Clone, Copy, PartialEq, Eq, Structural)]
pub enum ConfigError {
    /// The base URL is not an absolute URL.
    InvalidBaseUrl,
    /// A session was installed before.
    AlreadyInitialized,
}

/// The place of the one upstream session of a process: empty until a session
/// is installed, and never changed after that.
#[derive(Debug)]
pub struct UpstreamClient {
    session: Option<UpstreamSession>,
}

/// The text of the absolute URL that `url::Url::parse` reads `text` as, in
/// the form in which the parsed URL is written; `None` where it reports an
/// error.
pub uninterp spec fn parsed_url(text: Seq<char>) -> Option<Seq<char>>;

/// The headers as pairs of texts.
pub open spec fn headers_of(headers: Seq<(String, String)>) -> Seq<(Seq<char>, Seq<char>)> {
    Seq::new(headers.len(), |i: int| (headers[i].0@, headers[i].1@))
}

/// Reads `text` as an absolute URL.
///
/// Trusted: `url::Url::parse`, with the parsed URL handed back as its text
/// (`String::from`), and an error as `None`. The contract gives the result
/// the name `parsed_url`.
#[verifier::external_body]
fn parse_url(text: &str) -> (url: Option<String>)
    ensures
        text_of(url) == parsed_url(text@),
{
    url::Url::parse(text).ok().map(String::from)
}

/// Whether `text` is an absolute URL, and so can be the base of a session.
pub fn is_absolute_url(text: &str) -> (valid: bool)
    ensures
        valid == parsed_url(text@).is_some(),
{
    parse_url(text).is_some()
}

impl UpstreamSession {
    /// The base URL, as the parsed URL is written.
    pub closed spec fn base(&self) -> Seq<char> {
        self.base_url@
    }

    /// The default headers, as pairs of name and value.
    pub closed spec fn headers(&self) -> Seq<(Seq<char>, Seq<char>)> {
        headers_of(self.default_headers@)
    }

    /// The base URL that every upstream path is joined to.
    pub fn base_url(&self) -> (url: &String)
        ensures
            url@ == self.base(),
    {
        &self.base_url
    }

    /// The headers that go with every upstream request.
    pub fn default_headers(&self) -> (headers: &Vec<(String, String)>)
        ensures
            headers_of(headers@) == self.headers(),
    {
        &self.default_headers
    }
}

impl UpstreamClient {
    /// The session that is installed, if one is.
    pub closed spec fn installed(&self) -> Option<UpstreamSession> {
        self.session
    }

    /// The place before startup: no session.
    pub fn new() -> (client: Self)
        ensures
            client.installed().is_none(),
    {
        UpstreamClient { session: None }
    }

    /// Whether a session is installed.
    pub fn is_initialized(&self) -> (ready: bool)
        ensures
            ready == self.installed().is_some(),
    {
        self.session.is_some()
    }

    /// Installs the session for `base_url` with `default_headers`. This is
    /// for startup: the base URL is an absolute URL, and no session was
    /// installed before.
    pub fn initialize(&mut self, base_url: &str, default_headers: Vec<(String, String)>)
        requires
            old(self).installed().is_none(),
            parsed_url(base_url@).is_some(),
        ensures
            final(self).installed().is_some(),
            final(self).installed().unwrap().base() == parsed_url(base_url@).unwrap(),
            final(self).installed().unwrap().headers() == headers_of(default_headers@),
    {
        match parse_url(base_url) {
            Some(url) => {
                self.session = Some(UpstreamSession { base_url: url, default_headers });
            },
            None => vstd::pervasive::unreached(),
        }
    }

    /// Installs the session for `base_url` with `default_headers` if that can
    /// be done: the base URL has to be an absolute URL, and no session may be
    /// installed yet. Otherwise it says which of the two failed, a session
    /// that is there first, and changes nothing.
    pub fn try_initialize(&mut self, base_url: &str, default_headers: Vec<(String, String)>) -> (result:
        Result<(), ConfigError>)
        ensures
            match result {
                Ok(_) => {
                    &&& old(self).installed().is_none()
                    &&& parsed_url(base_url@).is_some()
                    &&& final(self).installed().is_some()
                    &&& final(self).installed().unwrap().base() == parsed_url(base_url@).unwrap()
                    &&& final(self).installed().unwrap().headers() == headers_of(default_headers@)
                },
                Err(ConfigError::AlreadyInitialized) => {
                    &&& old(self).installed().is_some()
                    &&& final(self).installed() == old(self).installed()
                },
                Err(ConfigError::InvalidBaseUrl) => {
                    &&& old(self).installed().is_none()
                    &&& parsed_url(base_url@).is_none()
                    &&& final(self).installed().is_none()
                },
            },
    {
        if self.session.is_some() {
            Err(ConfigError::AlreadyInitialized)
        } else if is_absolute_url(base_url) {
            self.initialize(base_url, default_headers);
            Ok(())
        } else {
            Err(ConfigError::InvalidBaseUrl)
        }
    }

    /// The installed session. This is for use after startup: a session is
    /// installed.
    pub fn current(&self) -> (session: &UpstreamSession)
        requires
            self.installed().is_some(),
        ensures
            Some(*session) == self.installed(),
    {
        match &self.session {
            Some(session) => session,
            None => vstd::pervasive::unreached(),
        }
    }

    /// The installed session, or `None` before startup.
    pub fn try_current(&self) -> (session: Option<&UpstreamSession>)
        ensures
            match session {
                Some(found) => Some(*found) == self.installed(),
                None => self.installed().is_none(),
            },
    {
        match &self.session {
            Some(session) => Some(session),
            None => None,
        }
    }
}

/// The headers of a session that asks for JSON: `Accept: application/json`.
pub fn json_headers() -> (headers: Vec<(String, String)>)
    ensures
        headers_of(headers@) == seq![("Accept"@, "application/json"@)],
{
    let mut headers: Vec<(String, String)> = Vec::new();
    headers.push((String::from_str("Accept"), String::from_str("application/json")));
    proof {
        assert(headers_of(headers@) =~= seq![("Accept"@, "application/json"@)]);
    }
    headers
}

/// Installs the session that asks `endpoint` for JSON. This is for startup:
/// `endpoint` is an absolute URL, and no session was installed before.
pub fn create_canister_client(client: &mut UpstreamClient, endpoint: &str)
    requires
        old(client).installed().is_none(),
        parsed_url(endpoint@).is_some(),
    ensures
        final(client).installed().is_some(),
        final(client).installed().unwrap().base() == parsed_url(endpoint@).unwrap(),
        final(client).installed().unwrap().headers() == seq![("Accept"@, "application/json"@)],
{
    client.initialize(endpoint, json_headers());
}

/// Installs the session that asks `endpoint` for JSON, if `endpoint` is an
/// absolute URL and no session is installed yet; otherwise it says which of
/// the two failed and changes nothing.
pub fn try_create_canister_client(client: &mut UpstreamClient, endpoint: &str) -> (result: Result<
    (),
    ConfigError,
>)
    ensures
        match result {
            Ok(_) => {
                &&& old(client).installed().is_none()
                &&& parsed_url(endpoint@).is_some()
                &&& final(client).installed().is_some()
                &&& final(client).installed().unwrap().base() == parsed_url(endpoint@).unwrap()
                &&& final(client).installed().unwrap().headers() == seq![
                    ("Accept"@, "application/json"@),
                ]
            },
            Err(ConfigError::AlreadyInitialized) => {
                &&& old(client).installed().is_some()
                &&& final(client).installed() == old(client).installed()
            },
            Err(ConfigError::InvalidBaseUrl) => {
                &&& old(client).installed().is_none()
                &&& parsed_url(endpoint@).is_none()
                &&& final(client).installed().is_none()
            },
        },
{
    if client.is_initialized() {
        Err(ConfigError::AlreadyInitialized)
    } else if is_absolute_url(endpoint) {
        create_canister_client(client, endpoint);
        Ok(())
    } else {
        Err(ConfigError::InvalidBaseUrl)
    }
}

/// The installed session. This is for use after startup: a session is
/// installed.
pub fn canister(client: &UpstreamClient) -> (session: &UpstreamSession)
    requires
        client.installed().is_some(),
    ensures
        Some(*session) == client.installed(),
{
    client.current()
}

} // verus!
