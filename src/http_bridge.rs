//! The HTTP host calls: the permission check that precedes every request,
//! and the per-context sessions that the guest reads through handles.

use vstd::prelude::*;
use crate::error::HttpErrorKind;
use crate::handle_table::HandleTable;
use crate::permission::{net_descriptor, BlsRuntimePermissionsContainer, PermissionKind, PermissionState};
use crate::text::{eq_ignore_case, matches_at};
use crate::url_parts::{parse_url, url_parse, UrlParts};
use crate::chunked::push_range;

verus! {

/// A destination that passed the permission check. Only
/// `HttpContext::http_req_target` makes one, and `open_session` takes one,
/// so no session is recorded for a request that was not checked.
pub struct RequestTarget {
    url: UrlParts,
}

impl RequestTarget {
    pub closed spec fn url_spec(&self) -> UrlParts {
        self.url
    }

    pub fn url(&self) -> (r: &UrlParts)
        ensures
            *r == self.url_spec(),
    {
        &self.url
    }
}

/// A completed response, read by the guest through its handle.
pub struct HttpSession {
    pub status: u16,
    pub headers: Vec<(String, Vec<u8>)>,
    pub body: Vec<u8>,
    /// How much of the body the guest has read.
    pub read_pos: usize,
}

/// The value of the first header named `name`, up to ASCII case.
pub open spec fn first_header(hs: Seq<(String, Vec<u8>)>, name: Seq<char>) -> Option<Seq<u8>>
    decreases hs.len(),
{
    if hs.len() == 0 {
        None
    } else if eq_ignore_case(hs[0].0@, name) {
        Some(hs[0].1@)
    } else {
        first_header(hs.drop_first(), name)
    }
}

/// How many body bytes a read of `buf_len` bytes takes from `s`.
pub open spec fn body_chunk_len(s: HttpSession, buf_len: u32) -> nat {
    if s.read_pos >= s.body@.len() {
        0
    } else if s.body@.len() - s.read_pos < buf_len {
        (s.body@.len() - s.read_pos) as nat
    } else {
        buf_len as nat
    }
}

/// The HTTP state of one guest execution context.
pub struct HttpContext {
    pub permissions: BlsRuntimePermissionsContainer,
    pub sessions: HandleTable<HttpSession>,
}

impl HttpContext {
    /// The session table is well formed, and no session has read past its
    /// body.
    pub open spec fn wf(&self) -> bool {
        &&& self.sessions.wf()
        &&& forall|h: u32|
            #[trigger] self.sessions@.contains_key(h) ==> self.sessions@[h].read_pos
                <= self.sessions@[h].body@.len()
    }

    /// The outcome of the check before a request to `url`: `InvalidUrl`
    /// when it does not parse or names no host, `PermissionDeny` when the
    /// host (with its port) is not granted, else the destination.
    pub open spec fn req_check(&self, url: Seq<char>) -> Result<
        (Seq<char>, Option<Seq<char>>, Option<u16>, Seq<char>, Option<Seq<char>>),
        HttpErrorKind,
    > {
        match url_parse(url) {
            None => Err(HttpErrorKind::InvalidUrl),
            Some(p) => match p.1 {
                None => Err(HttpErrorKind::InvalidUrl),
                Some(host) => if self.permissions.state_of(PermissionKind::Net, net_descriptor(host, p.2))
                    == PermissionState::Granted {
                    Ok(p)
                } else {
                    Err(HttpErrorKind::PermissionDeny)
                },
            },
        }
    }

    pub fn new(permissions: BlsRuntimePermissionsContainer) -> (r: Self)
        ensures
            r.wf(),
            r.sessions@ == Map::<u32, HttpSession>::empty(),
            r.sessions.next_handle() == 1,
            r.permissions == permissions,
    {
        HttpContext { permissions, sessions: HandleTable::new() }
    }

    /// The first step of `http_req`: parses `url` and checks the network
    /// permission for its host and port. Nothing is connected here; the
    /// caller connects only to the target returned.
    pub fn http_req_target(&self, url: &str) -> (r: Result<RequestTarget, HttpErrorKind>)
        ensures
            match self.req_check(url@) {
                Ok(p) => r matches Ok(t) && t.url_spec().parts() == p,
                Err(e) => r matches Err(x) && x == e,
            },
    {
        let u = match parse_url(url) {
            Some(u) => u,
            None => return Err(HttpErrorKind::InvalidUrl),
        };
        let allowed = match &u.host {
            Some(h) => self.permissions.check_net(h.as_str(), u.port, "http_req"),
            None => return Err(HttpErrorKind::InvalidUrl),
        };
        match allowed {
            Ok(()) => Ok(RequestTarget { url: u }),
            Err(_) => Err(HttpErrorKind::PermissionDeny),
        }
    }

    /// Records the response to a request and hands out a fresh handle, with
    /// the status code; `TooManySessions` only when every handle has been
    /// issued.
    pub fn open_session(
        &mut self,
        target: RequestTarget,
        status: u16,
        headers: Vec<(String, Vec<u8>)>,
        body: Vec<u8>,
    ) -> (r: Result<(u32, u16), HttpErrorKind>)
        requires
            old(self).wf(),
        ensures
            final(self).wf(),
            final(self).permissions == old(self).permissions,
            match r {
                Ok((h, code)) => code == status && !old(self).sessions@.contains_key(h)
                    && final(self).sessions@.contains_key(h) && final(self).sessions@.remove(h)
                    == old(self).sessions@ && final(self).sessions@[h].status == status
                    && final(self).sessions@[h].headers@ == headers@
                    && final(self).sessions@[h].body@ == body@
                    && final(self).sessions@[h].read_pos == 0,
                Err(e) => e == HttpErrorKind::TooManySessions && final(self).sessions@ == old(
                    self,
                ).sessions@ && old(self).sessions.next_handle() == u32::MAX,
            },
    {
        let session = HttpSession { status, headers, body, read_pos: 0 };
        match self.sessions.insert(session) {
            Some(h) => {
                assert(self.sessions@.remove(h) =~= old(self).sessions@);
                Ok((h, status))
            },
            None => Err(HttpErrorKind::TooManySessions),
        }
    }

    /// The next at most `buf_len` bytes of the body; empty once it is all
    /// read. `InvalidHandle` for a handle not open in this context.
    pub fn http_read_body(&mut self, handle: u32, buf_len: u32) -> (r: Result<Vec<u8>, HttpErrorKind>)
        requires
            old(self).wf(),
        ensures
            final(self).wf(),
            final(self).permissions == old(self).permissions,
            !old(self).sessions@.contains_key(handle) ==> r == Err::<Vec<u8>, HttpErrorKind>(
                HttpErrorKind::InvalidHandle,
            ) && final(self).sessions@ == old(self).sessions@,
            old(self).sessions@.contains_key(handle) ==> ({
                let s = old(self).sessions@[handle];
                let n = body_chunk_len(s, buf_len);
                &&& r matches Ok(bytes) && bytes@ == (if n == 0 {
                    Seq::<u8>::empty()
                } else {
                    s.body@.subrange(s.read_pos as int, s.read_pos + n)
                })
                &&& final(self).sessions@.contains_key(handle)
                &&& final(self).sessions@.remove(handle) == old(self).sessions@.remove(handle)
                &&& final(self).sessions@[handle].read_pos == s.read_pos + n
                &&& final(self).sessions@[handle].body@ == s.body@
                &&& final(self).sessions@[handle].headers@ == s.headers@
                &&& final(self).sessions@[handle].status == s.status
            }),
    {
        proof {
            if self.sessions@.contains_key(handle) {
                self.sessions.lemma_live_below_next(handle);
            }
        }
        let mut s = match self.sessions.remove(handle) {
            Some(s) => s,
            None => {
                assert(self.sessions@ =~= old(self).sessions@);
                return Err(HttpErrorKind::InvalidHandle);
            },
        };
        let len = s.body.len();
        let n: usize = if s.read_pos >= len {
            0
        } else if ((len - s.read_pos) as u64) < (buf_len as u64) {
            len - s.read_pos
        } else {
            buf_len as usize
        };
        let mut out: Vec<u8> = Vec::new();
        let from = s.read_pos;
        if n > 0 {
            push_range(&mut out, s.body.as_slice(), from, from + n);
        }
        s.read_pos = from + n;
        self.sessions.insert_at(handle, s);
        assert(self.sessions@.remove(handle) =~= old(self).sessions@.remove(handle));
        Ok(out)
    }

    /// The value of the response header `name` (ASCII case ignored).
    /// `InvalidHandle` for a handle not open here, `HeaderNotFound` when no
    /// such header came, `BufferTooSmall` when the value exceeds `buf_len`.
    pub fn http_read_header(&self, handle: u32, name: &str, buf_len: u32) -> (r: Result<Vec<u8>, HttpErrorKind>)
        requires
            self.wf(),
        ensures
            !self.sessions@.contains_key(handle) ==> r == Err::<Vec<u8>, HttpErrorKind>(
                HttpErrorKind::InvalidHandle,
            ),
            self.sessions@.contains_key(handle) ==> match first_header(
                self.sessions@[handle].headers@,
                name@,
            ) {
                None => r == Err::<Vec<u8>, HttpErrorKind>(HttpErrorKind::HeaderNotFound),
                Some(v) => if v.len() > buf_len {
                    r == Err::<Vec<u8>, HttpErrorKind>(HttpErrorKind::BufferTooSmall)
                } else {
                    r matches Ok(bytes) && bytes@ == v
                },
            },
    {
        let s = match self.sessions.get(handle) {
            Some(s) => s,
            None => return Err(HttpErrorKind::InvalidHandle),
        };
        let nlen = name.unicode_len();
        let mut i: usize = 0;
        assert(s.headers@.skip(0) =~= s.headers@);
        while i < s.headers.len()
            invariant
                self.sessions@.contains_key(handle),
                *s == self.sessions@[handle],
                i <= s.headers@.len(),
                nlen == name@.len(),
                first_header(s.headers@, name@) == first_header(s.headers@.skip(i as int), name@),
            decreases s.headers@.len() - i,
        {
            let hname = s.headers[i].0.as_str();
            let same = hname.unicode_len() == nlen && matches_at(hname, 0, name, true);
            proof {
                if hname@.len() == nlen {
                    assert(hname@.subrange(0, name@.len() as int) =~= hname@);
                }
                assert(s.headers@.skip(i as int)[0] == s.headers@[i as int]);
                assert(s.headers@.skip(i as int).drop_first() =~= s.headers@.skip(i + 1));
            }
            if same {
                let v = &s.headers[i].1;
                if (v.len() as u64) > (buf_len as u64) {
                    return Err(HttpErrorKind::BufferTooSmall);
                }
                let mut out: Vec<u8> = Vec::new();
                push_range(&mut out, v.as_slice(), 0, v.len());
                assert(v@.subrange(0, v@.len() as int) =~= v@);
                return Ok(out);
            }
            i = i + 1;
        }
        Err(HttpErrorKind::HeaderNotFound)
    }

    /// Closes the session under `handle`; `InvalidHandle` when none is open.
    pub fn http_close(&mut self, handle: u32) -> (r: Result<(), HttpErrorKind>)
        requires
            old(self).wf(),
        ensures
            final(self).wf(),
            final(self).permissions == old(self).permissions,
            final(self).sessions@ == old(self).sessions@.remove(handle),
            r is Ok <==> old(self).sessions@.contains_key(handle),
            r is Err ==> r == Err::<(), HttpErrorKind>(HttpErrorKind::InvalidHandle),
    {
        match self.sessions.remove(handle) {
            Some(_) => Ok(()),
            None => Err(HttpErrorKind::InvalidHandle),
        }
    }
}

/// Law: a request to a destination whose host the permissions do not grant
/// fails with `PermissionDeny` at the check, before any transport exists.
pub proof fn lemma_denied_destination(ctx: HttpContext, url: Seq<char>)
    requires
        url_parse(url) is Some,
        url_parse(url)->Some_0.1 is Some,
        ctx.permissions.state_of(
            PermissionKind::Net,
            net_descriptor(url_parse(url)->Some_0.1->Some_0, url_parse(url)->Some_0.2),
        ) != PermissionState::Granted,
    ensures
        ctx.req_check(url) == Err::<
            (Seq<char>, Option<Seq<char>>, Option<u16>, Seq<char>, Option<Seq<char>>),
            HttpErrorKind,
        >(HttpErrorKind::PermissionDeny),
{
}

/// The bytes that reads of at most `buf_len` bytes hand out from position
/// `pos` on, in order, until a read comes back empty.
pub open spec fn drain_body(body: Seq<u8>, pos: nat, buf_len: nat) -> Seq<u8>
    decreases body.len() - pos,
{
    if buf_len == 0 || pos >= body.len() {
        Seq::empty()
    } else {
        let n = if body.len() - pos < buf_len {
            (body.len() - pos) as nat
        } else {
            buf_len
        };
        body.subrange(pos as int, (pos + n) as int) + drain_body(body, pos + n, buf_len)
    }
}

/// Law: reading a session's body again and again with a positive buffer
/// length hands out between one and `buf_len` bytes per read until the body
/// is exhausted, and the reads together are exactly the rest of the body.
pub proof fn lemma_body_reads_reassemble(s: HttpSession, buf_len: u32)
    requires
        buf_len > 0,
        s.read_pos <= s.body@.len(),
    ensures
        s.read_pos < s.body@.len() ==> 0 < body_chunk_len(s, buf_len) <= buf_len,
        s.read_pos == s.body@.len() ==> body_chunk_len(s, buf_len) == 0,
        drain_body(s.body@, s.read_pos as nat, buf_len as nat) == s.body@.skip(s.read_pos as int),
{
    lemma_drain(s.body@, s.read_pos as nat, buf_len as nat);
}

proof fn lemma_drain(body: Seq<u8>, pos: nat, buf_len: nat)
    requires
        buf_len > 0,
        pos <= body.len(),
    ensures
        drain_body(body, pos, buf_len) == body.skip(pos as int),
    decreases body.len() - pos,
{
    if pos < body.len() {
        let n = if body.len() - pos < buf_len {
            (body.len() - pos) as nat
        } else {
            buf_len
        };
        lemma_drain(body, pos + n, buf_len);
        assert(body.subrange(pos as int, (pos + n) as int) + body.skip((pos + n) as int) =~= body.skip(pos as int));
    } else {
        assert(body.skip(pos as int) =~= Seq::<u8>::empty());
    }
}

/// Law: in a well-formed context, reading an open session's body to its
/// end hands out exactly the part of the body not read yet.
pub proof fn lemma_session_reads_reassemble(ctx: HttpContext, h: u32, buf_len: u32)
    requires
        ctx.wf(),
        ctx.sessions@.contains_key(h),
        buf_len > 0,
    ensures
        drain_body(ctx.sessions@[h].body@, ctx.sessions@[h].read_pos as nat, buf_len as nat)
            == ctx.sessions@[h].body@.skip(ctx.sessions@[h].read_pos as int),
{
    lemma_body_reads_reassemble(ctx.sessions@[h], buf_len);
}

} // verus!
