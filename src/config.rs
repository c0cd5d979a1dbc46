use vstd::prelude::*;
use reqwest::Url;

verus! {

/// Settings of the process as read from its environment.
#[derive(Clone, Debug)]
pub struct AppEnvConfig {
    pub host: String,
    pub port: u32,
    pub tags_ttl_seconds: u32,
    pub url: String,
    pub login: String,
    pub password: String,
}

/// Settings of the HTTP front: where to listen and how long a tag map lives.
#[derive(Clone, Debug)]
pub struct ApiConfig {
    pub host: String,
    pub port: u32,
    pub tags_ttl_seconds: u32,
}

impl ApiConfig {
    /// The HTTP settings among the process settings.
    pub fn new(env_config: AppEnvConfig) -> (r: ApiConfig)
        ensures
            r.host@ == env_config.host@,
            r.port == env_config.port,
            r.tags_ttl_seconds == env_config.tags_ttl_seconds,
    {
        ApiConfig {
            host: env_config.host,
            port: env_config.port,
            tags_ttl_seconds: env_config.tags_ttl_seconds,
        }
    }
}

/// The realtime scheme that goes with a backend URL's scheme: `ws` for `http`,
/// `wss` for `https`, and none for any other.
pub fn socket_scheme(scheme: &String) -> (r: Option<String>)
    ensures
        scheme@ == "http"@ ==> (r matches Some(s) && s@ == "ws"@),
        scheme@ == "https"@ ==> (r matches Some(s) && s@ == "wss"@),
        scheme@ != "http"@ && scheme@ != "https"@ ==> r is None,
{
    proof {
        reveal_strlit("http");
        reveal_strlit("https");
        assert("http"@.len() != "https"@.len());
    }
    if *scheme == String::from_str("http") {
        Some(String::from_str("ws"))
    } else if *scheme == String::from_str("https") {
        Some(String::from_str("wss"))
    } else {
        None
    }
}

/// Path of the realtime endpoint on the backend.
pub const SOCKET_PATH: &'static str = "/socket.io/";

#[verifier::external_type_specification]
#[verifier::external_body]
pub struct ExUrl(Url);

/// Whether `text` parses as an absolute URL.
pub uninterp spec fn url_parses(text: Seq<char>) -> bool;

/// The URL that `text` parses to.
pub uninterp spec fn parsed_url(text: Seq<char>) -> Url;

/// The scheme of the URL that `text` parses to, lower-cased.
pub uninterp spec fn url_scheme_of(text: Seq<char>) -> Seq<char>;

/// The URL that `text` parses to, with its path set to `path` and its scheme to `scheme`.
pub uninterp spec fn realtime_url(text: Seq<char>, path: Seq<char>, scheme: Seq<char>) -> Url;

/// Relies on `url::Url::parse` (re-exported by reqwest): whether the text parses,
/// and to what, depends on the text alone.
#[verifier::external_body]
fn parse_url(text: &str) -> (r: Option<Url>)
    ensures
        r is Some <==> url_parses(text@),
        r matches Some(u) ==> u == parsed_url(text@),
{
    Url::parse(text).ok()
}

/// Relies on `url::Url::parse` and `url::Url::scheme`: the scheme of the parsed
/// URL, which depends on the text alone.
#[verifier::external_body]
fn parsed_scheme(text: &str) -> (r: Option<String>)
    ensures
        r is Some <==> url_parses(text@),
        r matches Some(s) ==> s@ == url_scheme_of(text@),
{
    Url::parse(text).ok().map(|u| u.scheme().to_string())
}

/// Relies on `url::Url::parse`, `url::Url::set_path` and `url::Url::set_scheme`.
/// `set_path` cannot fail, and `set_scheme` succeeds when moving between special
/// schemes (`http`, `https`, `ws`, `wss`) on a URL with a host, which every parsed
/// `http` or `https` URL has.
#[verifier::external_body]
fn realtime_url_of(text: &str, path: &str, scheme: &str) -> (r: Option<Url>)
    ensures
        url_parses(text@) && (url_scheme_of(text@) == "http"@ || url_scheme_of(text@)
            == "https"@) && (scheme@ == "ws"@ || scheme@ == "wss"@) ==> r is Some,
        r matches Some(u) ==> u == realtime_url(text@, path@, scheme@),
{
    let mut url = match Url::parse(text) {
        Ok(url) => url,
        Err(_) => return None,
    };
    url.set_path(path);
    match url.set_scheme(scheme) {
        Ok(()) => Some(url),
        Err(()) => None,
    }
}

/// The realtime scheme that goes with an `http` or `https` scheme.
pub open spec fn socket_scheme_of(scheme: Seq<char>) -> Seq<char> {
    if scheme == "https"@ {
        "wss"@
    } else {
        "ws"@
    }
}

/// Why the backend's connection settings are unusable.
#[derive(Debug)]
pub enum ConfigError {
    /// The backend URL does not parse; holds it.
    InvalidUrl(String),
    /// The backend URL's scheme is neither `http` nor `https`; holds the scheme.
    WrongScheme(String),
}

/// Where the backend lives, where its realtime endpoint is, and how to log in there.
#[derive(Debug)]
pub struct KumaConnectionConfig {
    pub url: Url,
    pub login: String,
    pub password: String,
    pub socket_url: Url,
}

impl KumaConnectionConfig {
    /// The connection settings among the process settings. The realtime URL is
    /// the backend URL with its path replaced by the realtime path and its scheme
    /// mapped `http` to `ws`, `https` to `wss`.
    pub fn new(env_config: &AppEnvConfig) -> (r: Result<KumaConnectionConfig, ConfigError>)
        ensures
            r is Ok <==> url_parses(env_config.url@) && (url_scheme_of(env_config.url@) == "http"@
                || url_scheme_of(env_config.url@) == "https"@),
            r matches Err(ConfigError::InvalidUrl(u)) <==> !url_parses(env_config.url@),
            r matches Err(ConfigError::InvalidUrl(u)) ==> u@ == env_config.url@,
            r matches Err(ConfigError::WrongScheme(s)) ==> s@ == url_scheme_of(env_config.url@),
            r matches Ok(c) ==> {
                &&& c.url == parsed_url(env_config.url@)
                &&& c.socket_url == realtime_url(
                    env_config.url@,
                    SOCKET_PATH@,
                    socket_scheme_of(url_scheme_of(env_config.url@)),
                )
                &&& c.login@ == env_config.login@
                &&& c.password@ == env_config.password@
            },
    {
        proof {
            reveal_strlit("http");
            reveal_strlit("https");
            assert("http"@.len() != "https"@.len());
        }
        let scheme = match parsed_scheme(env_config.url.as_str()) {
            Some(scheme) => scheme,
            None => {
                return Err(ConfigError::InvalidUrl(env_config.url.clone()));
            },
        };
        let socket = match socket_scheme(&scheme) {
            Some(socket) => socket,
            None => {
                return Err(ConfigError::WrongScheme(scheme));
            },
        };
        let url = match parse_url(env_config.url.as_str()) {
            Some(url) => url,
            None => {
                return Err(ConfigError::InvalidUrl(env_config.url.clone()));
            },
        };
        let socket_url = match realtime_url_of(env_config.url.as_str(), SOCKET_PATH, socket.as_str()) {
            Some(socket_url) => socket_url,
            None => {
                return Err(ConfigError::InvalidUrl(env_config.url.clone()));
            },
        };
        Ok(KumaConnectionConfig {
            url,
            login: env_config.login.clone(),
            password: env_config.password.clone(),
            socket_url,
        })
    }
}

} // verus!
