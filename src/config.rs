use vstd::prelude::*;
use vstd::string::StringSliceAdditionalSpecFns;
use vstd::utf8::encode_utf8;

verus! {

/// `true` when the bytes `h` end with the bytes `s`, as `str::ends_with` decides.
pub open spec fn bytes_end_with(h: Seq<u8>, s: Seq<u8>) -> bool {
    s.len() <= h.len() && h.subrange(h.len() - s.len(), h.len() as int) == s
}

/// The host policy: with no suffixes every host is intercepted, otherwise
/// exactly the hosts that end with one of them.
pub open spec fn proxies(hosts: Seq<Seq<u8>>, host: Seq<u8>) -> bool {
    hosts.len() == 0 || exists|i: int| 0 <= i < hosts.len() && bytes_end_with(host, #[trigger] hosts[i])
}

/// Settings of the proxy; read once at startup and shared read-only.
#[derive(Debug)]
pub struct Config {
    pub bind_ip: String,
    pub bind_port: u16,
    /// Suffixes of the hosts whose tunnels are intercepted; empty means all.
    pub proxy_hosts: Vec<String>,
    /// Server name to present upstream; empty means the request's host.
    pub sni: String,
    pub root_ca_cert_path: String,
    pub root_ca_key_path: String,
    /// Whether intercepted traffic is parsed as HTTP/1.1 and logged.
    pub parse: bool,
}

impl Config {
    /// The suffix list as byte sequences.
    pub open spec fn host_suffixes(&self) -> Seq<Seq<u8>> {
        self.proxy_hosts@.map_values(|s: String| encode_utf8(s@))
    }

    /// Whether `domain` is intercepted.
    pub fn is_proxy(&self, domain: &str) -> (r: bool)
        ensures
            r == proxies(self.host_suffixes(), domain.spec_bytes()),
    {
        if self.proxy_hosts.len() == 0 {
            return true;
        }
        let d = domain.as_bytes();
        let mut i: usize = 0;
        while i < self.proxy_hosts.len()
            invariant
                0 <= i <= self.proxy_hosts.len(),
                d@ == domain.spec_bytes(),
                forall|j: int| 0 <= j < i ==> !bytes_end_with(domain.spec_bytes(), #[trigger] self.host_suffixes()[j]),
            decreases self.proxy_hosts.len() - i,
        {
            if ends_with(d, self.proxy_hosts[i].as_str().as_bytes()) {
                assert(bytes_end_with(domain.spec_bytes(), self.host_suffixes()[i as int]));
                return true;
            }
            i = i + 1;
        }
        false
    }
}

/// The port the proxy listens on unless configured otherwise.
pub const DEFAULT_BIND_PORT: u16 = 31181;

impl Default for Config {
    /// Listen on `127.0.0.1:31181`, intercept every host, present the
    /// request's own host upstream, keep the root CA in `proxy.ca.cert.crt` and
    /// `proxy.ca.key.pem`, and do not parse intercepted traffic.
    fn default() -> (r: Config)
        ensures
            r.bind_ip@ == "127.0.0.1"@,
            r.bind_port == DEFAULT_BIND_PORT,
            r.proxy_hosts@.len() == 0,
            r.sni@.len() == 0,
            r.root_ca_cert_path@ == "proxy.ca.cert.crt"@,
            r.root_ca_key_path@ == "proxy.ca.key.pem"@,
            !r.parse,
    {
        Config {
            bind_ip: "127.0.0.1".to_owned(),
            bind_port: DEFAULT_BIND_PORT,
            proxy_hosts: Vec::new(),
            sni: String::new(),
            root_ca_cert_path: "proxy.ca.cert.crt".to_owned(),
            root_ca_key_path: "proxy.ca.key.pem".to_owned(),
            parse: false,
        }
    }
}

/// Byte-wise suffix test.
pub fn ends_with(h: &[u8], s: &[u8]) -> (r: bool)
    ensures
        r == bytes_end_with(h@, s@),
{
    if s.len() > h.len() {
        return false;
    }
    let off = h.len() - s.len();
    let mut k: usize = 0;
    while k < s.len()
        invariant
            s.len() <= h.len(),
            off == h.len() - s.len(),
            0 <= k <= s.len(),
            forall|j: int| 0 <= j < k ==> h@[off + j] == s@[j],
        decreases s.len() - k,
    {
        if h[off + k] != s[k] {
            assert(h@.subrange(off as int, h@.len() as int)[k as int] != s@[k as int]);
            return false;
        }
        k = k + 1;
    }
    assert(h@.subrange(off as int, h@.len() as int) =~= s@);
    true
}

} // verus!
