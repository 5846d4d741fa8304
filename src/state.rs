//! The state shared by every connection, and the context of one relayed request.
use crate::config::{proxies, Config};
use vstd::prelude::*;
use vstd::string::StringSliceAdditionalSpecFns;

verus! {

/// How one request is relayed to its origin.
#[derive(Clone)]
pub struct ClientState {
    /// `host:port` of the origin.
    pub addr: String,
    /// Server name presented when dialing over TLS; the host for plain HTTP.
    pub sni: String,
    /// Whether the origin is dialed over TLS.
    pub is_secure: bool,
    /// Whether the request and its response are logged.
    pub parse: bool,
}

/// The name to present upstream for `host`: the configured one, unless it is empty.
pub open spec fn chosen_sni(configured: Seq<char>, host: Seq<char>) -> Seq<char> {
    if configured.len() == 0 { host } else { configured }
}

/// What every connection shares: the settings, read-only.
pub struct State {
    config: Config,
}

impl State {
    pub closed spec fn config(&self) -> Config {
        self.config
    }

    pub fn new(config: Config) -> (r: State)
        ensures
            r.config() == config,
    {
        State { config }
    }

    pub fn config_ref(&self) -> (r: &Config)
        ensures
            *r == self.config(),
    {
        &self.config
    }

    /// Whether tunnels to `host` are intercepted.
    pub fn is_proxy(&self, host: &str) -> (r: bool)
        ensures
            r == proxies(self.config().host_suffixes(), host.spec_bytes()),
    {
        self.config.is_proxy(host)
    }

    /// Whether intercepted traffic is parsed and logged.
    pub fn is_parse(&self) -> (r: bool)
        ensures
            r == self.config().parse,
    {
        self.config.parse
    }

    /// The server name to present upstream when the client asked for `host`.
    pub fn get_sni<'a>(&'a self, host: &'a str) -> (r: &'a str)
        ensures
            r@ == chosen_sni(self.config().sni@, host@),
    {
        if self.config.sni.as_str().is_empty() {
            host
        } else {
            self.config.sni.as_str()
        }
    }
}

} // verus!
