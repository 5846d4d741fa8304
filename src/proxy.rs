//! The decisions of a connection: what to answer, where to relay, whether to
//! intercept a tunnel and how to dial the origin.
use crate::config::proxies;
use crate::state::{chosen_sni, ClientState, State};
use crate::target::{host_addr, socket_target, UriParts};
use vstd::prelude::*;
use vstd::utf8::encode_utf8;

verus! {

/// A response that the proxy makes up itself.
pub struct Reply {
    pub status: u16,
    pub body: String,
}

pub open spec fn not_socket_address_text() -> Seq<char> {
    "HTTP must be to socket address"@
}

pub open spec fn connect_failed_text() -> Seq<char> {
    "connect http failed"@
}

impl Reply {
    /// `200` with an empty body: the tunnel is open.
    pub fn tunnel_open() -> (r: Reply)
        ensures
            r.status == 200,
            r.body@.len() == 0,
    {
        Reply { status: 200, body: String::new() }
    }

    /// `400` with an empty body: a `CONNECT` without an authority.
    pub fn bad_connect() -> (r: Reply)
        ensures
            r.status == 400,
            r.body@.len() == 0,
    {
        Reply { status: 400, body: String::new() }
    }

    /// `406`: a plain request whose URI names no socket address.
    pub fn not_socket_address() -> (r: Reply)
        ensures
            r.status == 406,
            r.body@ == not_socket_address_text(),
    {
        Reply { status: 406, body: "HTTP must be to socket address".to_owned() }
    }

    /// `406`: the origin could not be reached.
    pub fn connect_failed() -> (r: Reply)
        ensures
            r.status == 406,
            r.body@ == connect_failed_text(),
    {
        Reply { status: 406, body: "connect http failed".to_owned() }
    }
}

/// What the proxy does with a request that reaches it.
pub enum Dispatch {
    /// Answer with `Reply::tunnel_open`, then run the tunnel to `addr` for `host`
    /// in a task of its own.
    OpenTunnel { addr: String, host: String },
    /// Relay the request to its origin with this context.
    Forward(ClientState),
    /// Answer at once.
    Respond(Reply),
}

/// What a tunnel does once the client's stream is upgraded.
pub enum TunnelPlan {
    /// Copy bytes between the client and a plain connection to `addr`.
    Raw { addr: String },
    /// Accept TLS with a leaf for `host`, dial `addr` over TLS presenting `sni`,
    /// and copy bytes between the two sessions.
    Bridge { addr: String, host: String, sni: String },
    /// Accept TLS with a leaf for `host` and serve HTTP/1.1 inside, relaying each
    /// request with `client`.
    Inspect { host: String, client: ClientState },
}

/// How to reach the origin of one relayed request.
pub enum Dial {
    Tcp { addr: String },
    Tls { addr: String, sni: String },
}

impl ClientState {
    /// TLS with the chosen server name when the context is secure, plain TCP otherwise.
    pub fn dial(&self) -> (r: Dial)
        ensures
            self.is_secure ==> (r matches Dial::Tls { addr, sni } && addr@ == self.addr@ && sni@ == self.sni@),
            !self.is_secure ==> (r matches Dial::Tcp { addr } && addr@ == self.addr@),
    {
        if self.is_secure {
            Dial::Tls { addr: self.addr.clone(), sni: self.sni.clone() }
        } else {
            Dial::Tcp { addr: self.addr.clone() }
        }
    }
}

/// The proxy's request handler, relaying through `client`.
pub struct Proxy<C> {
    client: C,
}

impl<C> Proxy<C> {
    pub closed spec fn client_spec(&self) -> C {
        self.client
    }

    pub fn new(client: C) -> (r: Self)
        ensures
            r.client_spec() == client,
    {
        Proxy { client }
    }

    /// The client that requests are relayed through.
    pub fn client(&self) -> (r: &C)
        ensures
            *r == self.client_spec(),
    {
        &self.client
    }

    /// A `CONNECT` opens a tunnel when its URI has an authority and is refused
    /// with `400` otherwise; any other request is relayed over plain TCP to the
    /// address its URI names, or refused with `406` when it names none.
    pub fn route(&self, state: &State, is_connect: bool, uri: &UriParts) -> (r: Dispatch)
        requires
            uri.wf(),
        ensures
            match socket_target(*uri) {
                None => r matches Dispatch::Respond(reply) && if is_connect {
                    reply.status == 400 && reply.body@.len() == 0
                } else {
                    reply.status == 406 && reply.body@ == not_socket_address_text()
                },
                Some(t) => if is_connect {
                    r matches Dispatch::OpenTunnel { addr, host } && addr@ == t.0 && host@ == t.1
                } else {
                    r matches Dispatch::Forward(c) && c.addr@ == t.0 && c.sni@ == t.1 && !c.is_secure
                        && c.parse == state.config().parse
                },
            },
    {
        match host_addr(uri) {
            None => {
                if is_connect {
                    Dispatch::Respond(Reply::bad_connect())
                } else {
                    Dispatch::Respond(Reply::not_socket_address())
                }
            },
            Some((addr, host)) => {
                if is_connect {
                    Dispatch::OpenTunnel { addr, host }
                } else {
                    Dispatch::Forward(ClientState { addr, sni: host, is_secure: false, parse: state.is_parse() })
                }
            },
        }
    }
}

/// The course of a tunnel to `addr` for `host`: hosts outside the policy are
/// copied blind; the others are intercepted, and then bridged or, in parse
/// mode, served as HTTP/1.1 and relayed over TLS with the chosen server name.
pub fn plan_tunnel(state: &State, addr: String, host: String) -> (r: TunnelPlan)
    ensures
        !proxies(state.config().host_suffixes(), encode_utf8(host@)) ==> (r matches TunnelPlan::Raw { addr: a }
            && a@ == addr@),
        proxies(state.config().host_suffixes(), encode_utf8(host@)) && !state.config().parse ==> (r matches TunnelPlan::Bridge { addr: a, host: h, sni }
            && a@ == addr@ && h@ == host@ && sni@ == chosen_sni(state.config().sni@, host@)),
        proxies(state.config().host_suffixes(), encode_utf8(host@)) && state.config().parse ==> (r matches TunnelPlan::Inspect { host: h, client }
            && h@ == host@ && client.addr@ == addr@ && client.sni@ == chosen_sni(state.config().sni@, host@)
            && client.is_secure && client.parse),
{
    if !state.is_proxy(host.as_str()) {
        return TunnelPlan::Raw { addr };
    }
    let sni = state.get_sni(host.as_str()).to_owned();
    if state.is_parse() {
        TunnelPlan::Inspect { host, client: ClientState { addr, sni, is_secure: true, parse: true } }
    } else {
        TunnelPlan::Bridge { addr, host, sni }
    }
}

} // verus!
