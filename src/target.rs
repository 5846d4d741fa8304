//! The parts of a request URI that decide where a request goes.
use vstd::prelude::*;
use vstd::string::StringExecFns;
use vstd::utf8::encode_utf8;

verus! {

/// A request URI as its parser split it.
pub struct UriParts {
    /// The scheme as the parser normalised it (`http` for any case of it).
    pub scheme: Option<String>,
    /// `host[:port]`, when the URI has an authority.
    pub authority: Option<String>,
    pub host: Option<String>,
    pub port: Option<u16>,
}

impl UriParts {
    /// A URI with an authority has a host: the host is part of the authority.
    pub open spec fn wf(&self) -> bool {
        self.authority is Some ==> self.host is Some
    }

    /// Whether the parts hold together as those of a parsed URI.
    pub fn is_well_formed(&self) -> (r: bool)
        ensures
            r == self.wf(),
    {
        self.authority.is_none() || self.host.is_some()
    }
}

/// The bytes of `http`.
pub open spec fn http_scheme() -> Seq<u8> {
    seq![104u8, 116, 116, 112]
}

/// `:80`, the port of plain HTTP.
pub open spec fn default_port_suffix() -> Seq<char> {
    seq![':', '8', '0']
}

/// Where a request for `u` connects, and the host it names: the authority, with
/// `:80` added for an `http` URI that gives no port.
pub open spec fn socket_target(u: UriParts) -> Option<(Seq<char>, Seq<char>)> {
    match (u.authority, u.host) {
        (Some(a), Some(h)) => {
            let plain = u.scheme matches Some(s) && encode_utf8(s@) == http_scheme();
            Some((if plain && u.port is None { a@ + default_port_suffix() } else { a@ }, h@))
        },
        _ => None,
    }
}

/// Whether the scheme is `http`.
fn is_http(s: &str) -> (r: bool)
    ensures
        r == (encode_utf8(s@) == http_scheme()),
{
    let b = s.as_bytes();
    let r = b.len() == 4 && b[0] == 104 && b[1] == 116 && b[2] == 116 && b[3] == 112;
    assert(r ==> b@ =~= http_scheme());
    r
}

/// The address to connect to (`host:port`) and the host of a request URI;
/// `None` when the URI has no authority.
pub fn host_addr(uri: &UriParts) -> (r: Option<(String, String)>)
    requires
        uri.wf(),
    ensures
        r matches Some(p) ==> socket_target(*uri) == Some((p.0@, p.1@)),
        r is None <==> socket_target(*uri) is None,
        r is None <==> uri.authority is None,
{
    match (&uri.authority, &uri.host) {
        (Some(a), Some(h)) => {
            let plain = match &uri.scheme {
                Some(s) => is_http(s.as_str()),
                None => false,
            };
            let addr = if plain && uri.port.is_none() {
                proof {
                    reveal_strlit(":80");
                }
                let mut with_port = a.clone();
                with_port.append(":80");
                with_port
            } else {
                a.clone()
            };
            Some((addr, h.clone()))
        },
        _ => None,
    }
}

} // verus!
