use mitm_proxy::cache::{Leaf, LeafCache, LEAF_CACHE_SIZE};
use mitm_proxy::codec::{HttpRequest, RequestExt};
use mitm_proxy::stream::HttpClientStream;

fn leaf(n: usize) -> Leaf {
    Leaf { cert: format!("cert-{n}").into_bytes(), key: format!("key-{n}").into_bytes() }
}

#[test]
fn fifty_distinct_hosts_are_all_kept() {
    let mut c = LeafCache::new();
    for i in 0..LEAF_CACHE_SIZE {
        c.store(format!("h{i}.test"), leaf(i));
        assert_eq!(c.len(), i + 1);
    }
    for i in 0..LEAF_CACHE_SIZE {
        let l = c.lookup(&format!("h{i}.test")).unwrap();
        assert_eq!(l.cert, leaf(i).cert);
    }
}

#[test]
fn repeated_lookups_return_the_same_leaf() {
    let mut c = LeafCache::new();
    assert!(c.lookup(&"a.test".to_string()).is_none());
    c.store("a.test".to_string(), leaf(7));
    let first = c.lookup(&"a.test".to_string()).unwrap();
    let second = c.lookup(&"a.test".to_string()).unwrap();
    assert_eq!(first.cert, second.cert);
    assert_eq!(first.key, second.key);
    assert_eq!(c.len(), 1);
}

#[test]
fn storing_a_known_host_replaces_its_leaf() {
    let mut c = LeafCache::new();
    c.store("a.test".to_string(), leaf(1));
    c.store("a.test".to_string(), leaf(2));
    assert_eq!(c.len(), 1);
    assert_eq!(c.lookup(&"a.test".to_string()).unwrap().cert, leaf(2).cert);
}

#[test]
fn fifty_first_host_evicts_exactly_one() {
    let mut c = LeafCache::new();
    for i in 0..LEAF_CACHE_SIZE {
        c.store(format!("h{i}.test"), leaf(i));
    }
    c.store("new.test".to_string(), leaf(99));
    assert_eq!(c.len(), LEAF_CACHE_SIZE);
    assert!(c.lookup(&"new.test".to_string()).is_some());
    let missing = (0..LEAF_CACHE_SIZE).filter(|i| c.lookup(&format!("h{i}.test")).is_none()).count();
    assert_eq!(missing, 1);
    // the least recently used entry is the one that left
    assert!(c.lookup(&"h0.test".to_string()).is_none());
}

fn add_marker(mut r: HttpRequest) -> HttpRequest {
    r.headers.push(mitm_proxy::codec::Header { name: "x-seen".to_string(), value: b"1".to_vec() });
    r
}

#[test]
fn plain_stream_keeps_nothing() {
    let mut s: HttpClientStream<Vec<u8>, fn(HttpRequest) -> HttpRequest> = HttpClientStream::new(Vec::new());
    assert_eq!(s.prepare_write(b"GET / HTTP/1.1\r\n"), Some(b"GET / HTTP/1.1\r\n".to_vec()));
    s.get_mut().extend_from_slice(b"raw");
    assert_eq!(s.get_mut().as_slice(), b"raw");
}

#[test]
fn intercepting_stream_rewrites_each_request() {
    let mut s = HttpClientStream::with_intercept(Vec::<u8>::new(), add_marker as fn(HttpRequest) -> HttpRequest);
    assert!(s.prepare_write(b"GET / HTTP/1.1\r\n").is_none());
    let out = s.prepare_write(b"host: a\r\n\r\n").unwrap();
    assert_eq!(out, b"GET / HTTP/1.1\r\nhost: a\r\nx-seen: 1\r\n\r\n".to_vec());
    assert!(s.get_mut().is_empty());
}
