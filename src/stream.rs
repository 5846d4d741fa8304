//! A write side that frames outgoing requests and lets a hook rewrite each one.
use crate::codec::{append, framed, wire, HttpRequest, RequestExt};
use vstd::prelude::*;

verus! {

/// A stream whose writes may pass through a request hook `F`, which rewrites
/// each request before it is sent on.
pub struct HttpClientStream<S, F> {
    inner: S,
    write_buf: Vec<u8>,
    before: Option<F>,
}

impl<S, F: Fn(HttpRequest) -> HttpRequest> HttpClientStream<S, F> {
    pub closed spec fn inner_spec(&self) -> S {
        self.inner
    }

    /// Bytes written but not yet framed into a request.
    pub closed spec fn pending(&self) -> Seq<u8> {
        self.write_buf@
    }

    pub closed spec fn intercepts(&self) -> bool {
        self.before is Some
    }

    /// The hook turns `a` into `b`.
    pub closed spec fn rewrites(&self, a: HttpRequest, b: HttpRequest) -> bool {
        self.before matches Some(f) && f.ensures((a,), b)
    }

    /// The hook accepts every request.
    pub closed spec fn hook_total(&self) -> bool {
        self.before matches Some(f) ==> forall|q: HttpRequest| f.requires((q,))
    }

    /// Writes pass straight through.
    pub fn new(inner: S) -> (r: Self)
        ensures
            r.inner_spec() == inner,
            r.pending().len() == 0,
            !r.intercepts(),
            r.hook_total(),
    {
        HttpClientStream { inner, write_buf: Vec::new(), before: None }
    }

    /// Writes are framed into requests, and each is rewritten by `intercept`.
    pub fn with_intercept(inner: S, intercept: F) -> (r: Self)
        requires
            forall|q: HttpRequest| intercept.requires((q,)),
        ensures
            r.hook_total(),
            r.inner_spec() == inner,
            r.pending().len() == 0,
            r.intercepts(),
    {
        HttpClientStream { inner, write_buf: Vec::new(), before: Some(intercept) }
    }

    /// Whether writes go through the request hook.
    pub fn is_intercepting(&self) -> (r: bool)
        ensures
            r == self.intercepts(),
    {
        self.before.is_some()
    }

    /// The underlying writer.
    pub fn get_mut(&mut self) -> (r: &mut S)
        ensures
            *r == old(self).inner_spec(),
            final(self).inner_spec() == *final(r),
            final(self).pending() == old(self).pending(),
            final(self).intercepts() == old(self).intercepts(),
            final(self).hook_total() == old(self).hook_total(),
    {
        &mut self.inner
    }

    /// The bytes to pass to the underlying stream for a write of `data`.
    /// Without a hook, `data` itself. With one, `data` joins the write buffer;
    /// once the buffer holds a complete request, it leaves the buffer and the
    /// bytes of its rewritten form are returned.
    pub fn prepare_write(&mut self, data: &[u8]) -> (r: Option<Vec<u8>>)
        requires
            old(self).hook_total(),
        ensures
            final(self).inner_spec() == old(self).inner_spec(),
            final(self).intercepts() == old(self).intercepts(),
            final(self).hook_total(),
            !old(self).intercepts() ==> (r matches Some(out) && out@ == data@ && final(self).pending() == old(self).pending()),
            old(self).intercepts() ==> match framed(old(self).pending() + data@) {
                None => r is None && final(self).pending() == old(self).pending() + data@,
                Some(f) => final(self).pending() == (old(self).pending() + data@).skip(f.1 as int)
                    && (r matches Some(out) && exists|a: HttpRequest, b: HttpRequest|
                        a.view() == f.0 && #[trigger] old(self).rewrites(a, b) && out@ == wire(b.view())),
            },
    {
        if self.before.is_none() {
            let mut out: Vec<u8> = Vec::new();
            append(&mut out, data);
            return Some(out);
        }
        let mut i: usize = 0;
        while i < data.len()
            invariant
                0 <= i <= data.len(),
                self.write_buf@ == old(self).write_buf@ + data@.subrange(0, i as int),
                self.inner == old(self).inner,
                self.before == old(self).before,
            decreases data.len() - i,
        {
            self.write_buf.push(data[i]);
            i = i + 1;
            assert(self.write_buf@ =~= old(self).write_buf@ + data@.subrange(0, i as int));
        }
        assert(data@.subrange(0, data.len() as int) =~= data@);
        match HttpRequest::encode(&mut self.write_buf) {
            Some(req) => {
                let ghost a = req;
                let req = match &self.before {
                    Some(hook) => hook(req),
                    None => req,
                };
                let out = req.decode();
                assert(old(self).rewrites(a, req));
                Some(out)
            },
            None => None,
        }
    }
}

} // verus!
