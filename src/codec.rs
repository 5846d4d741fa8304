//! Framing of HTTP/1.1 requests held in a byte buffer, and their serialisation.
use vstd::prelude::*;
use vstd::utf8::encode_utf8;

verus! {

/// A header line as seen on the wire: its name and its raw value.
pub struct Header {
    pub name: String,
    pub value: Vec<u8>,
}

impl Header {
    pub open spec fn view(&self) -> (Seq<char>, Seq<u8>) {
        (self.name@, self.value@)
    }
}

pub open spec fn header_views(hs: Seq<Header>) -> Seq<(Seq<char>, Seq<u8>)> {
    hs.map_values(|h: Header| h.view())
}

/// A request with a fully buffered body.
pub struct HttpRequest {
    pub method: String,
    /// The request target exactly as it appeared on the request line.
    pub target: String,
    /// Header lines in the order in which they arrived.
    pub headers: Vec<Header>,
    pub body: Vec<u8>,
}

impl HttpRequest {
    pub open spec fn view(&self) -> (Seq<char>, Seq<char>, Seq<(Seq<char>, Seq<u8>)>, Seq<u8>) {
        (self.method@, self.target@, header_views(self.headers@), self.body@)
    }
}

/// What the request-head parser reports: method, target, headers and the
/// length of the head in bytes.
pub struct ParsedHead {
    pub method: String,
    pub target: String,
    pub headers: Vec<Header>,
    pub len: usize,
}

impl ParsedHead {
    pub open spec fn view(&self) -> (Seq<char>, Seq<char>, Seq<(Seq<char>, Seq<u8>)>, nat) {
        (self.method@, self.target@, header_views(self.headers@), self.len as nat)
    }
}

/// The head that httparse finds at the start of `buf` when it may fill at most
/// `slots` headers; `None` when the head is incomplete or malformed.
pub uninterp spec fn request_head(buf: Seq<u8>, slots: nat) -> Option<(Seq<char>, Seq<char>, Seq<(Seq<char>, Seq<u8>)>, nat)>;

/// Relies on `httparse::Request::parse`: on `Status::Complete(n)` the method,
/// the path and the headers are filled in and `n`, the offset of the body, lies
/// within the buffer; an incomplete or malformed head gives no request.
#[verifier::external_body]
fn parse_request_head(buf: &[u8], slots: usize) -> (r: Option<ParsedHead>)
    ensures
        r is None <==> request_head(buf@, slots as nat) is None,
        r matches Some(h) ==> request_head(buf@, slots as nat) == Some(h.view()) && h.len <= buf@.len(),
{
    let mut headers = vec![httparse::EMPTY_HEADER; slots];
    let mut req = httparse::Request::new(&mut headers);
    match req.parse(buf) {
        Ok(httparse::Status::Complete(len)) => Some(ParsedHead {
            method: req.method.unwrap_or_default().to_string(),
            target: req.path.unwrap_or_default().to_string(),
            headers: req.headers.iter().map(|h| Header { name: h.name.to_string(), value: h.value.to_vec() }).collect(),
            len,
        }),
        _ => None,
    }
}

pub open spec fn is_digit(b: u8) -> bool {
    48 <= b <= 57
}

/// Number of decimal digits at the start of `s`.
pub open spec fn digit_prefix(s: Seq<u8>) -> nat
    decreases s.len(),
{
    if s.len() > 0 && is_digit(s[0]) {
        1 + digit_prefix(s.drop_first())
    } else {
        0
    }
}

/// Value of a run of decimal digits.
pub open spec fn decimal(s: Seq<u8>) -> nat
    decreases s.len(),
{
    if s.len() == 0 {
        0
    } else {
        decimal(s.drop_last()) * 10 + (s.last() - 48) as nat
    }
}

/// The unsigned number at the start of `s`: an optional `+` or `-`, then the
/// longest run of digits. Nothing at all gives `None`; so does a value that
/// does not fit, and a negative one other than zero.
pub open spec fn leading_usize(s: Seq<u8>) -> Option<usize> {
    let signed = s.len() > 0 && (s[0] == 43 || s[0] == 45);
    let off: int = if signed { 1 } else { 0 };
    let n = digit_prefix(s.skip(off));
    let v = decimal(s.subrange(off, off + n));
    if off == 0 && n == 0 {
        None
    } else if s[0] == 45 {
        if v == 0 { Some(0usize) } else { None }
    } else if v <= usize::MAX {
        Some(v as usize)
    } else {
        None
    }
}

/// Relies on `atoi::atoi::<usize>`: reads an optional sign and the digits that
/// follow, with checked arithmetic, and ignores the bytes after them.
#[verifier::external_body]
fn leading_number(text: &[u8]) -> (r: Option<usize>)
    ensures
        r == leading_usize(text@),
{
    atoi::atoi::<usize>(text)
}

/// Number of line feeds in `s`.
pub open spec fn newline_count(s: Seq<u8>) -> nat
    decreases s.len(),
{
    if s.len() == 0 {
        0
    } else {
        newline_count(s.drop_last()) + if s.last() == 10 { 1nat } else { 0nat }
    }
}

/// ASCII lower-casing of one byte.
pub open spec fn ascii_lower(b: u8) -> u8 {
    if 65 <= b <= 90 { (b + 32) as u8 } else { b }
}

/// The bytes of `content-length`.
pub open spec fn content_length_name() -> Seq<u8> {
    seq![99u8, 111, 110, 116, 101, 110, 116, 45, 108, 101, 110, 103, 116, 104]
}

/// Whether a header name is `Content-Length`, in any letter case.
pub open spec fn names_content_length(name: Seq<char>) -> bool {
    let b = encode_utf8(name);
    b.len() == content_length_name().len()
        && forall|i: int| 0 <= i < b.len() ==> #[trigger] ascii_lower(b[i]) == content_length_name()[i]
}

/// The body length that the first `Content-Length` header declares; zero when
/// there is none or its value is not a number.
pub open spec fn declared_length(hs: Seq<(Seq<char>, Seq<u8>)>) -> nat
    decreases hs.len(),
{
    if hs.len() == 0 {
        0
    } else if names_content_length(hs[0].0) {
        match leading_usize(hs[0].1) {
            Some(v) => v as nat,
            None => 0,
        }
    } else {
        declared_length(hs.drop_first())
    }
}

/// The request at the start of `buf` and the number of bytes it takes, once the
/// head is complete and the declared body has arrived.
pub open spec fn framed(buf: Seq<u8>) -> Option<((Seq<char>, Seq<char>, Seq<(Seq<char>, Seq<u8>)>, Seq<u8>), nat)> {
    match request_head(buf, newline_count(buf)) {
        None => None,
        Some(h) => {
            let cl = declared_length(h.2);
            if cl == 0 {
                Some(((h.0, h.1, h.2, Seq::<u8>::empty()), h.3))
            } else if h.3 + cl <= buf.len() {
                Some(((h.0, h.1, h.2, buf.subrange(h.3 as int, (h.3 + cl) as int)), h.3 + cl))
            } else {
                None
            }
        }
    }
}

/// `CR LF`.
pub open spec fn crlf() -> Seq<u8> {
    seq![13u8, 10]
}

/// ` HTTP/1.1` and the line end.
pub open spec fn version_suffix() -> Seq<u8> {
    seq![32u8, 72, 84, 84, 80, 47, 49, 46, 49, 13, 10]
}

/// One header line: name, `: `, value, line end.
pub open spec fn header_wire(h: (Seq<char>, Seq<u8>)) -> Seq<u8> {
    encode_utf8(h.0) + seq![58u8, 32] + h.1 + crlf()
}

pub open spec fn headers_wire(hs: Seq<(Seq<char>, Seq<u8>)>) -> Seq<u8>
    decreases hs.len(),
{
    if hs.len() == 0 {
        Seq::empty()
    } else {
        headers_wire(hs.drop_last()) + header_wire(hs.last())
    }
}

/// The bytes of a request: request line, header lines, blank line, body.
pub open spec fn wire(r: (Seq<char>, Seq<char>, Seq<(Seq<char>, Seq<u8>)>, Seq<u8>)) -> Seq<u8> {
    encode_utf8(r.0) + seq![32u8] + encode_utf8(r.1) + version_suffix() + headers_wire(r.2) + crlf() + r.3
}

/// Round trip of a request through its bytes: when the head parser reads back
/// the line and the headers of a request from the bytes `decode` makes of it,
/// and its `Content-Length` gives the length of its body, then `encode` takes
/// exactly those bytes off the buffer and returns that request, whose bytes
/// are again the same.
pub proof fn lemma_round_trip(r: (Seq<char>, Seq<char>, Seq<(Seq<char>, Seq<u8>)>, Seq<u8>))
    requires
        request_head(wire(r), newline_count(wire(r)))
            == Some((r.0, r.1, r.2, (wire(r).len() - r.3.len()) as nat)),
        declared_length(r.2) == r.3.len(),
    ensures
        framed(wire(r)) == Some((r, wire(r).len())),
        wire(framed(wire(r)).unwrap().0) == wire(r),
{
    let b = wire(r);
    let n = (b.len() - r.3.len()) as int;
    let head = encode_utf8(r.0) + seq![32u8] + encode_utf8(r.1) + version_suffix() + headers_wire(r.2) + crlf();
    assert(b == head + r.3);
    assert(b.subrange(n, b.len() as int) =~= r.3);
    if r.3.len() == 0 {
        assert(r.3 =~= Seq::<u8>::empty());
    }
}

/// Counts the line feeds in `s`.
fn count_newlines(s: &[u8]) -> (r: usize)
    ensures
        r == newline_count(s@),
{
    let mut n: usize = 0;
    let mut i: usize = 0;
    while i < s.len()
        invariant
            0 <= i <= s.len(),
            n == newline_count(s@.subrange(0, i as int)),
            n <= i,
        decreases s.len() - i,
    {
        assert(s@.subrange(0, i + 1).drop_last() =~= s@.subrange(0, i as int));
        if s[i] == 10 {
            n = n + 1;
        }
        i = i + 1;
    }
    assert(s@.subrange(0, s.len() as int) =~= s@);
    n
}

/// Whether `name` is `Content-Length` in any letter case.
fn is_content_length(name: &str) -> (r: bool)
    ensures
        r == names_content_length(name@),
{
    let b = name.as_bytes();
    let expected: [u8; 14] = [99, 111, 110, 116, 101, 110, 116, 45, 108, 101, 110, 103, 116, 104];
    assert(expected@ =~= content_length_name());
    if b.len() != 14 {
        return false;
    }
    let mut i: usize = 0;
    while i < 14
        invariant
            0 <= i <= 14,
            b@ == encode_utf8(name@),
            b@.len() == 14,
            expected@ == content_length_name(),
            forall|j: int| 0 <= j < i ==> #[trigger] ascii_lower(b@[j]) == content_length_name()[j],
        decreases 14 - i,
    {
        let c = b[i];
        let lc = if 65 <= c && c <= 90 { c + 32 } else { c };
        assert(lc == ascii_lower(b@[i as int]));
        if lc != expected[i] {
            assert(ascii_lower(b@[i as int]) != content_length_name()[i as int]);
            return false;
        }
        i = i + 1;
    }
    true
}

/// The body length declared by the headers.
fn content_length(hs: &Vec<Header>) -> (r: usize)
    ensures
        r == declared_length(header_views(hs@)),
{
    let mut i: usize = 0;
    assert(header_views(hs@).skip(0) =~= header_views(hs@));
    while i < hs.len()
        invariant
            0 <= i <= hs.len(),
            declared_length(header_views(hs@)) == declared_length(header_views(hs@).skip(i as int)),
        decreases hs.len() - i,
    {
        let ghost rest = header_views(hs@).skip(i as int);
        assert(rest.drop_first() =~= header_views(hs@).skip(i + 1));
        assert(rest[0] == hs@[i as int].view());
        if is_content_length(hs[i].name.as_str()) {
            return match leading_number(hs[i].value.as_slice()) {
                Some(v) => v,
                None => 0,
            };
        }
        i = i + 1;
    }
    assert(header_views(hs@).skip(i as int).len() == 0);
    0
}

/// Appends the bytes of `s` to `buf`.
pub(crate) fn append(buf: &mut Vec<u8>, s: &[u8])
    ensures
        final(buf)@ == old(buf)@ + s@,
{
    let mut i: usize = 0;
    while i < s.len()
        invariant
            0 <= i <= s.len(),
            buf@ == old(buf)@ + s@.subrange(0, i as int),
        decreases s.len() - i,
    {
        buf.push(s[i]);
        i = i + 1;
        assert(buf@ =~= old(buf)@ + s@.subrange(0, i as int));
    }
    assert(s@.subrange(0, s.len() as int) =~= s@);
}

/// Conversion between buffered bytes and requests.
pub trait RequestExt: Sized {
    /// Takes one complete request off the front of `buf`, if there is one.
    fn encode(buf: &mut Vec<u8>) -> Option<Self>;

    /// Serialises the request.
    fn decode(self) -> Vec<u8>;
}

impl RequestExt for HttpRequest {
    /// Once `buf` holds a complete head and the body that its
    /// `Content-Length` declares, both are removed from the front of `buf` and
    /// returned; otherwise `buf` is left as it is.
    fn encode(buf: &mut Vec<u8>) -> (r: Option<HttpRequest>)
        ensures
            match framed(old(buf)@) {
                None => r is None && final(buf)@ == old(buf)@,
                Some(f) => r matches Some(req) && req.view() == f.0 && final(buf)@ == old(buf)@.skip(f.1 as int),
            },
    {
        let slots = count_newlines(buf.as_slice());
        let head = parse_request_head(buf.as_slice(), slots);
        match head {
            None => None,
            Some(h) => {
                let cl = content_length(&h.headers);
                let n = h.len;
                if cl == 0 {
                    let rest = buf.split_off(n);
                    *buf = rest;
                    Some(HttpRequest { method: h.method, target: h.target, headers: h.headers, body: Vec::new() })
                } else if cl <= buf.len() - n {
                    let mut body = buf.split_off(n);
                    let rest = body.split_off(cl);
                    *buf = rest;
                    proof {
                        assert(rest@ =~= old(buf)@.skip(n + cl));
                    }
                    Some(HttpRequest { method: h.method, target: h.target, headers: h.headers, body })
                } else {
                    None
                }
            },
        }
    }

    /// Request line, header lines in order, a blank line, then the body.
    fn decode(self) -> (r: Vec<u8>)
        ensures
            r@ == wire(self.view()),
    {
        let mut buf: Vec<u8> = Vec::new();
        append(&mut buf, self.method.as_str().as_bytes());
        buf.push(32);
        append(&mut buf, self.target.as_str().as_bytes());
        let version: [u8; 11] = [32, 72, 84, 84, 80, 47, 49, 46, 49, 13, 10];
        assert(version@ =~= version_suffix());
        append(&mut buf, &version);
        let ghost start = buf@;
        let mut i: usize = 0;
        while i < self.headers.len()
            invariant
                0 <= i <= self.headers.len(),
                buf@ == start + headers_wire(header_views(self.headers@).take(i as int)),
            decreases self.headers.len() - i,
        {
            let h = &self.headers[i];
            let ghost before = buf@;
            append(&mut buf, h.name.as_str().as_bytes());
            buf.push(58);
            buf.push(32);
            append(&mut buf, h.value.as_slice());
            buf.push(13);
            buf.push(10);
            proof {
                let hv = header_views(self.headers@);
                assert(hv.take(i + 1).drop_last() =~= hv.take(i as int));
                assert(hv.take(i + 1).last() == h.view());
                assert(buf@ =~= before + header_wire(h.view()));
            }
            i = i + 1;
        }
        assert(header_views(self.headers@).take(self.headers.len() as int) =~= header_views(self.headers@));
        buf.push(13);
        buf.push(10);
        append(&mut buf, self.body.as_slice());
        proof {
            assert(buf@ =~= wire(self.view()));
        }
        buf
    }
}

} // verus!
