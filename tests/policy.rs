use mitm_proxy::config::Config;
use mitm_proxy::proxy::{plan_tunnel, Dial, Dispatch, Proxy, Reply, TunnelPlan};
use mitm_proxy::state::{ClientState, State};
use mitm_proxy::target::{host_addr, UriParts};

fn config_with(hosts: &[&str], sni: &str, parse: bool) -> Config {
    let mut c = Config::default();
    c.proxy_hosts = hosts.iter().map(|h| h.to_string()).collect();
    c.sni = sni.to_string();
    c.parse = parse;
    c
}

fn uri(scheme: Option<&str>, authority: Option<&str>, host: Option<&str>, port: Option<u16>) -> UriParts {
    UriParts {
        scheme: scheme.map(|s| s.to_string()),
        authority: authority.map(|s| s.to_string()),
        host: host.map(|s| s.to_string()),
        port,
    }
}

#[test]
fn should_proxy() {
    let config = Config::default();
    assert!(config.is_proxy("alive.github.com"))
}

#[test]
fn default_config_values() {
    let c = Config::default();
    assert_eq!(c.bind_ip, "127.0.0.1");
    assert_eq!(c.bind_port, 31181);
    assert!(c.proxy_hosts.is_empty());
    assert_eq!(c.sni, "");
    assert_eq!(c.root_ca_cert_path, "proxy.ca.cert.crt");
    assert_eq!(c.root_ca_key_path, "proxy.ca.key.pem");
    assert!(!c.parse);
}

#[test]
fn is_proxy_matches_suffixes_only() {
    let c = config_with(&["github.com", "inspect.test"], "", false);
    assert!(c.is_proxy("alive.github.com"));
    assert!(c.is_proxy("github.com"));
    assert!(c.is_proxy("inspect.test"));
    assert!(!c.is_proxy("github.com.evil"));
    assert!(!c.is_proxy("other.test"));
    assert!(!c.is_proxy("com"));
    assert!(!c.is_proxy(""));
}

#[test]
fn empty_suffix_matches_everything() {
    let c = config_with(&[""], "", false);
    assert!(c.is_proxy("anything.test"));
    assert!(c.is_proxy(""));
}

#[test]
fn sni_override_and_fallback() {
    let s = State::new(config_with(&[], "front.test", false));
    assert_eq!(s.get_sni("inspect.test"), "front.test");
    let s = State::new(config_with(&[], "", false));
    assert_eq!(s.get_sni("inspect.test"), "inspect.test");
}

#[test]
fn host_addr_adds_port_80_for_http() {
    let u = uri(Some("http"), Some("example.test"), Some("example.test"), None);
    assert_eq!(host_addr(&u), Some(("example.test:80".to_string(), "example.test".to_string())));
    let u = uri(Some("http"), Some("example.test:8080"), Some("example.test"), Some(8080));
    assert_eq!(host_addr(&u), Some(("example.test:8080".to_string(), "example.test".to_string())));
    let u = uri(None, Some("other.test:443"), Some("other.test"), Some(443));
    assert_eq!(host_addr(&u), Some(("other.test:443".to_string(), "other.test".to_string())));
    let u = uri(Some("https"), Some("s.test"), Some("s.test"), None);
    assert_eq!(host_addr(&u), Some(("s.test".to_string(), "s.test".to_string())));
    let u = uri(None, None, None, None);
    assert_eq!(host_addr(&u), None);
}

#[test]
fn plain_request_is_forwarded() {
    let state = State::new(config_with(&[], "", true));
    let proxy = Proxy::new(0u8);
    let u = uri(Some("http"), Some("example.test"), Some("example.test"), None);
    match proxy.route(&state, false, &u) {
        Dispatch::Forward(c) => {
            assert_eq!(c.addr, "example.test:80");
            assert_eq!(c.sni, "example.test");
            assert!(!c.is_secure);
            assert!(c.parse);
        }
        _ => panic!("expected a forward"),
    }
}

#[test]
fn connect_without_authority_is_refused_with_400() {
    let state = State::new(Config::default());
    let proxy = Proxy::new(());
    match proxy.route(&state, true, &uri(None, None, None, None)) {
        Dispatch::Respond(r) => {
            assert_eq!(r.status, 400);
            assert_eq!(r.body, "");
        }
        _ => panic!("expected a refusal"),
    }
}

#[test]
fn plain_request_without_authority_gets_406() {
    let state = State::new(Config::default());
    let proxy = Proxy::new(());
    match proxy.route(&state, false, &uri(None, None, None, None)) {
        Dispatch::Respond(r) => {
            assert_eq!(r.status, 406);
            assert_eq!(r.body, "HTTP must be to socket address");
        }
        _ => panic!("expected a refusal"),
    }
}

#[test]
fn connect_opens_a_tunnel() {
    let state = State::new(Config::default());
    let proxy = Proxy::new(());
    let u = uri(None, Some("other.test:443"), Some("other.test"), Some(443));
    match proxy.route(&state, true, &u) {
        Dispatch::OpenTunnel { addr, host } => {
            assert_eq!(addr, "other.test:443");
            assert_eq!(host, "other.test");
        }
        _ => panic!("expected a tunnel"),
    }
    let open = Reply::tunnel_open();
    assert_eq!(open.status, 200);
    assert_eq!(open.body, "");
}

#[test]
fn tunnel_to_other_host_is_raw() {
    let state = State::new(config_with(&["mydomain"], "", false));
    match plan_tunnel(&state, "other.test:443".to_string(), "other.test".to_string()) {
        TunnelPlan::Raw { addr } => assert_eq!(addr, "other.test:443"),
        _ => panic!("expected a raw copy"),
    }
}

#[test]
fn tunnel_to_proxied_host_is_bridged() {
    let state = State::new(config_with(&["inspect.test"], "front.test", false));
    match plan_tunnel(&state, "inspect.test:443".to_string(), "inspect.test".to_string()) {
        TunnelPlan::Bridge { addr, host, sni } => {
            assert_eq!(addr, "inspect.test:443");
            assert_eq!(host, "inspect.test");
            assert_eq!(sni, "front.test");
        }
        _ => panic!("expected a bridge"),
    }
}

#[test]
fn tunnel_in_parse_mode_is_inspected() {
    let state = State::new(config_with(&["inspect.test"], "", true));
    match plan_tunnel(&state, "inspect.test:443".to_string(), "inspect.test".to_string()) {
        TunnelPlan::Inspect { host, client } => {
            assert_eq!(host, "inspect.test");
            assert_eq!(client.addr, "inspect.test:443");
            assert_eq!(client.sni, "inspect.test");
            assert!(client.is_secure);
            assert!(client.parse);
        }
        _ => panic!("expected inspection"),
    }
}

#[test]
fn secure_context_dials_tls_and_failure_is_406() {
    let c = ClientState { addr: "inspect.test:443".to_string(), sni: "front.test".to_string(), is_secure: true, parse: true };
    match c.dial() {
        Dial::Tls { addr, sni } => {
            assert_eq!(addr, "inspect.test:443");
            assert_eq!(sni, "front.test");
        }
        _ => panic!("expected TLS"),
    }
    let c = ClientState { addr: "example.test:80".to_string(), sni: "example.test".to_string(), is_secure: false, parse: false };
    match c.dial() {
        Dial::Tcp { addr } => assert_eq!(addr, "example.test:80"),
        _ => panic!("expected TCP"),
    }
    let r = Reply::connect_failed();
    assert_eq!(r.status, 406);
    assert_eq!(r.body, "connect http failed");
}

#[test]
fn uri_with_authority_needs_a_host() {
    assert!(uri(None, None, None, None).is_well_formed());
    assert!(uri(None, Some("a.test"), Some("a.test"), None).is_well_formed());
    assert!(!uri(None, Some("a.test"), None, None).is_well_formed());
}
