//! Request framing of the raw HTTP/1.1 client: the request line, the
//! headers, and the multipart wrapping of an upload. The bytes are handed to
//! the transport by the caller.

use vstd::prelude::*;
use vstd::utf8::encode_utf8;
use crate::chunked::push_range;
use crate::error::IpfsErrorKind;
use crate::text::{decimal, matches_at, push_decimal};
use crate::url_parts::{parse_url, url_parse, UrlParts};

verus! {

pub open spec fn header_line(k: Seq<char>, v: Seq<char>) -> Seq<char> {
    k + ": "@ + v + "\r\n"@
}

/// The lines of one header name, one per value, in insertion order.
pub open spec fn value_lines(k: Seq<char>, vs: Seq<String>) -> Seq<char>
    decreases vs.len(),
{
    if vs.len() == 0 {
        Seq::empty()
    } else {
        value_lines(k, vs.drop_last()) + header_line(k, vs.last()@)
    }
}

/// The caller's header lines, names in order of first insertion.
pub open spec fn user_lines(hs: Seq<(String, Vec<String>)>) -> Seq<char>
    decreases hs.len(),
{
    if hs.len() == 0 {
        Seq::empty()
    } else {
        user_lines(hs.drop_last()) + value_lines(hs.last().0@, hs.last().1@)
    }
}

pub open spec fn has_key(hs: Seq<(String, Vec<String>)>, k: Seq<char>) -> bool {
    exists|i: int| 0 <= i < hs.len() && (#[trigger] hs[i]).0@ == k
}

/// The `Host` header's value: the host, and the port when one is known.
pub open spec fn host_value(u: UrlParts) -> Option<Seq<char>> {
    match u.host {
        Some(h) => Some(
            match u.port {
                Some(p) => h@ + ":"@ + decimal(p as nat),
                None => h@,
            },
        ),
        None => None,
    }
}

/// An HTTP session to one URL: method, headers, an optional multipart
/// boundary, and whether the transport is up.
pub struct HttpRaw {
    url: UrlParts,
    method: String,
    boundary: Option<String>,
    header: Vec<(String, Vec<String>)>,
    connected: bool,
}

impl HttpRaw {
    pub closed spec fn url_spec(&self) -> UrlParts {
        self.url
    }

    pub closed spec fn method_spec(&self) -> Seq<char> {
        self.method@
    }

    pub closed spec fn boundary_spec(&self) -> Option<Seq<char>> {
        match self.boundary {
            Some(b) => Some(b@),
            None => None,
        }
    }

    /// The caller's headers: names with their values, names distinct, in
    /// order of first insertion.
    pub closed spec fn headers_spec(&self) -> Seq<(String, Vec<String>)> {
        self.header@
    }

    pub closed spec fn connected_spec(&self) -> bool {
        self.connected
    }

    pub open spec fn wf(&self) -> bool {
        forall|i: int, j: int|
            0 <= i < j < self.headers_spec().len() ==> (#[trigger] self.headers_spec()[i]).0@
                != (#[trigger] self.headers_spec()[j]).0@
    }

    /// The header block: `Host` (unless the caller set one), `Accept: */*`
    /// (likewise), then the caller's headers.
    pub open spec fn header_text(&self) -> Seq<char> {
        let hs = self.headers_spec();
        (match host_value(self.url_spec()) {
            Some(hv) => if has_key(hs, "Host"@) {
                Seq::empty()
            } else {
                header_line("Host"@, hv)
            },
            None => Seq::empty(),
        }) + (if has_key(hs, "Accept"@) {
            Seq::empty()
        } else {
            header_line("Accept"@, "*/*"@)
        }) + user_lines(hs)
    }

    /// The request head. Without a boundary it is closed by an empty line;
    /// with one, the multipart headers and the body follow.
    pub open spec fn request_text(&self) -> Seq<char> {
        let u = self.url_spec();
        self.method_spec() + " "@ + u.path@ + (match u.query {
            Some(q) => "?"@ + q@,
            None => Seq::empty(),
        }) + " HTTP/1.1\r\n"@ + self.header_text() + (if self.boundary_spec() is Some {
            Seq::empty()
        } else {
            "\r\n"@
        })
    }

    /// A `GET` session to `url`, not yet connected; `InvalidParameter` when
    /// the URL does not parse.
    pub fn from_url(url: &str) -> (r: Result<HttpRaw, IpfsErrorKind>)
        ensures
            match url_parse(url@) {
                Some(p) => r matches Ok(h) && h.wf() && h.url_spec().parts() == p
                    && h.method_spec() == "GET"@ && h.boundary_spec() is None
                    && h.headers_spec().len() == 0 && !h.connected_spec(),
                None => r == Err::<HttpRaw, IpfsErrorKind>(IpfsErrorKind::InvalidParameter),
            },
    {
        match parse_url(url) {
            Some(u) => Ok(
                HttpRaw {
                    url: u,
                    method: String::from_str("GET"),
                    boundary: None,
                    header: Vec::new(),
                    connected: false,
                },
            ),
            None => Err(IpfsErrorKind::InvalidParameter),
        }
    }

    pub fn boundary(&mut self, boundary: Option<String>)
        ensures
            final(self).boundary_spec() == (match boundary {
                Some(b) => Some(b@),
                None => None::<Seq<char>>,
            }),
            final(self).url_spec() == old(self).url_spec(),
            final(self).method_spec() == old(self).method_spec(),
            final(self).headers_spec() == old(self).headers_spec(),
            final(self).connected_spec() == old(self).connected_spec(),
    {
        self.boundary = boundary;
    }

    pub fn method(&mut self, method: &str)
        ensures
            final(self).method_spec() == method@,
            final(self).url_spec() == old(self).url_spec(),
            final(self).boundary_spec() == old(self).boundary_spec(),
            final(self).headers_spec() == old(self).headers_spec(),
            final(self).connected_spec() == old(self).connected_spec(),
    {
        self.method = String::from_str(method);
    }

    /// Records that the transport is established.
    pub fn set_connected(&mut self)
        ensures
            final(self).connected_spec(),
            final(self).url_spec() == old(self).url_spec(),
            final(self).method_spec() == old(self).method_spec(),
            final(self).boundary_spec() == old(self).boundary_spec(),
            final(self).headers_spec() == old(self).headers_spec(),
    {
        self.connected = true;
    }

    pub fn is_connect(&self) -> (r: bool)
        ensures
            r == self.connected_spec(),
    {
        self.connected
    }

    pub fn url(&self) -> (r: &UrlParts)
        ensures
            *r == self.url_spec(),
    {
        &self.url
    }

    fn key_index(&self, key: &str) -> (r: Option<usize>)
        ensures
            match r {
                Some(i) => i < self.headers_spec().len() && self.headers_spec()[i as int].0@ == key@,
                None => !has_key(self.headers_spec(), key@),
            },
    {
        let klen = key.unicode_len();
        let mut i: usize = 0;
        while i < self.header.len()
            invariant
                i <= self.header@.len(),
                klen == key@.len(),
                forall|j: int| 0 <= j < i ==> (#[trigger] self.header@[j]).0@ != key@,
            decreases self.header@.len() - i,
        {
            let name = self.header[i].0.as_str();
            if name.unicode_len() == klen && matches_at(name, 0, key, false) {
                assert(name@.subrange(0, key@.len() as int) =~= name@);
                return Some(i);
            }
            proof {
                if name@ == key@ {
                    assert(name@.subrange(0, key@.len() as int) =~= name@);
                }
            }
            i = i + 1;
        }
        None
    }

    /// Adds a value to header `key`: after the earlier values of that name,
    /// or as a new name at the end.
    pub fn insert_header(&mut self, key: String, value: String)
        requires
            old(self).wf(),
        ensures
            final(self).wf(),
            final(self).url_spec() == old(self).url_spec(),
            final(self).method_spec() == old(self).method_spec(),
            final(self).boundary_spec() == old(self).boundary_spec(),
            final(self).connected_spec() == old(self).connected_spec(),
            has_key(old(self).headers_spec(), key@) ==> exists|i: int|
                0 <= i < old(self).headers_spec().len() && old(self).headers_spec()[i].0@ == key@
                    && final(self).headers_spec() == old(self).headers_spec().update(
                    i,
                    (old(self).headers_spec()[i].0, final(self).headers_spec()[i].1),
                ) && final(self).headers_spec()[i].1@ == old(self).headers_spec()[i].1@.push(
                    value,
                ),
            !has_key(old(self).headers_spec(), key@) ==> final(self).headers_spec().len()
                == old(self).headers_spec().len() + 1 && final(self).headers_spec().drop_last()
                == old(self).headers_spec() && final(self).headers_spec().last().0 == key
                && final(self).headers_spec().last().1@ == seq![value],
    {
        match self.key_index(key.as_str()) {
            Some(i) => {
                let mut entry = self.header.remove(i);
                entry.1.push(value);
                self.header.insert(i, entry);
                assert(self.header@ =~= old(self).header@.update(
                    i as int,
                    (old(self).header@[i as int].0, self.header@[i as int].1),
                ));
            },
            None => {
                let mut values = Vec::new();
                values.push(value);
                self.header.push((key, values));
                assert(self.header@.drop_last() =~= old(self).header@);
                assert(values@ =~= seq![value]);
            },
        }
    }
}

fn push_header_line(s: &mut String, k: &str, v: &str)
    ensures
        final(s)@ == old(s)@ + header_line(k@, v@),
{
    s.append(k);
    s.append(": ");
    s.append(v);
    s.append("\r\n");
    assert(final(s)@ =~= old(s)@ + header_line(k@, v@));
}

/// The text of a multipart part's opening: delimiter and part headers.
pub open spec fn boundary_begin_text(b: Seq<char>) -> Seq<char> {
    "--"@ + b + "\r\n"@ + "Content-Disposition: form-data"@ + "\r\n"@
        + "Content-Type: application/octet-stream"@ + "\r\n"@ + "\r\n"@
}

/// The text that closes a multipart body.
pub open spec fn boundary_end_text(b: Seq<char>) -> Seq<char> {
    "\r\n"@ + "--"@ + b + "--"@ + "\r\n"@
}

/// The headers that announce a multipart body of `n` bytes.
pub open spec fn multipart_head_text(b: Seq<char>, n: nat) -> Seq<char> {
    "Content-Length: "@ + decimal(n) + "\r\n"@ + "Content-Type: multipart/form-data; boundary="@ + b
        + "\r\n"@ + "\r\n"@
}

/// The multipart body wrapping `val`.
pub open spec fn multipart_body(b: Seq<char>, val: Seq<u8>) -> Seq<u8> {
    encode_utf8(boundary_begin_text(b)) + val + encode_utf8(boundary_end_text(b))
}

impl HttpRaw {
    fn push_user_lines(&self, s: &mut String)
        ensures
            final(s)@ == old(s)@ + user_lines(self.headers_spec()),
    {
        let ghost hs = self.header@;
        let mut i: usize = 0;
        while i < self.header.len()
            invariant
                hs == self.header@,
                i <= hs.len(),
                s@ == old(s)@ + user_lines(hs.take(i as int)),
            decreases hs.len() - i,
        {
            let key = self.header[i].0.as_str();
            let values = &self.header[i].1;
            let ghost before = s@;
            let mut j: usize = 0;
            while j < values.len()
                invariant
                    j <= values@.len(),
                    key@ == hs[i as int].0@,
                    values@ == hs[i as int].1@,
                    s@ == before + value_lines(key@, values@.take(j as int)),
                decreases values@.len() - j,
            {
                push_header_line(s, key, values[j].as_str());
                assert(values@.take(j + 1).drop_last() =~= values@.take(j as int));
                j = j + 1;
            }
            assert(values@.take(j as int) =~= values@);
            assert(hs.take(i + 1).drop_last() =~= hs.take(i as int));
            i = i + 1;
        }
        assert(hs.take(i as int) =~= hs);
    }

    /// The header block, as text.
    pub fn header_raw(&self) -> (r: String)
        ensures
            r@ == self.header_text(),
    {
        let mut s = String::new();
        match &self.url.host {
            Some(h) => {
                if self.key_index("Host").is_none() {
                    let mut hv = String::from_str(h.as_str());
                    match self.url.port {
                        Some(p) => {
                            hv.append(":");
                            push_decimal(&mut hv, p as u64);
                        },
                        None => {},
                    }
                    push_header_line(&mut s, "Host", hv.as_str());
                }
            },
            None => {},
        }
        if self.key_index("Accept").is_none() {
            push_header_line(&mut s, "Accept", "*/*");
        }
        self.push_user_lines(&mut s);
        assert(s@ =~= self.header_text());
        s
    }

    /// The request head as it goes on the wire.
    pub fn get_req_raw(&self) -> (r: Vec<u8>)
        ensures
            r@ == encode_utf8(self.request_text()),
    {
        let mut s = String::from_str(self.method.as_str());
        s.append(" ");
        s.append(self.url.path.as_str());
        match &self.url.query {
            Some(q) => {
                s.append("?");
                s.append(q.as_str());
            },
            None => {},
        }
        s.append(" HTTP/1.1\r\n");
        let h = self.header_raw();
        s.append(h.as_str());
        if self.boundary.is_none() {
            s.append("\r\n");
        }
        assert(s@ =~= self.request_text());
        s.as_str().as_bytes_vec()
    }

    /// The bytes that open a multipart part.
    pub fn boundary_begin(boundary: &str) -> (r: Vec<u8>)
        ensures
            r@ == encode_utf8(boundary_begin_text(boundary@)),
    {
        let mut s = String::from_str("--");
        s.append(boundary);
        s.append("\r\n");
        s.append("Content-Disposition: form-data");
        s.append("\r\n");
        s.append("Content-Type: application/octet-stream");
        s.append("\r\n");
        s.append("\r\n");
        assert(s@ =~= boundary_begin_text(boundary@));
        s.as_str().as_bytes_vec()
    }

    /// The bytes that close a multipart body.
    pub fn boundary_end(boundary: &str) -> (r: Vec<u8>)
        ensures
            r@ == encode_utf8(boundary_end_text(boundary@)),
    {
        let mut s = String::from_str("\r\n");
        s.append("--");
        s.append(boundary);
        s.append("--");
        s.append("\r\n");
        assert(s@ =~= boundary_end_text(boundary@));
        s.as_str().as_bytes_vec()
    }

    /// The bytes that upload `val` as a multipart body: the announcing
    /// headers, then the wrapped payload. Fails with `RequestError` on a
    /// session that is not connected or has no boundary.
    pub fn write_boundary(&self, val: &[u8]) -> (r: Result<Vec<u8>, IpfsErrorKind>)
        ensures
            match self.boundary_spec() {
                Some(b) => if self.connected_spec() {
                    r matches Ok(bytes) && bytes@ == encode_utf8(
                        multipart_head_text(b, multipart_body(b, val@).len()),
                    ) + multipart_body(b, val@)
                } else {
                    r == Err::<Vec<u8>, IpfsErrorKind>(IpfsErrorKind::RequestError)
                },
                None => r == Err::<Vec<u8>, IpfsErrorKind>(IpfsErrorKind::RequestError),
            },
    {
        if !self.connected {
            return Err(IpfsErrorKind::RequestError);
        }
        let boundary = match &self.boundary {
            Some(b) => b.as_str(),
            None => return Err(IpfsErrorKind::RequestError),
        };
        let mut body = Self::boundary_begin(boundary);
        push_range(&mut body, val, 0, val.len());
        let end = Self::boundary_end(boundary);
        push_range(&mut body, end.as_slice(), 0, end.len());
        assert(val@.subrange(0, val@.len() as int) =~= val@);
        assert(end@.subrange(0, end@.len() as int) =~= end@);
        assert(body@ =~= multipart_body(boundary@, val@));
        let mut head = String::from_str("Content-Length: ");
        push_decimal(&mut head, body.len() as u64);
        head.append("\r\n");
        head.append("Content-Type: multipart/form-data; boundary=");
        head.append(boundary);
        head.append("\r\n");
        head.append("\r\n");
        assert(head@ =~= multipart_head_text(boundary@, body@.len()));
        let mut out = head.as_str().as_bytes_vec();
        push_range(&mut out, body.as_slice(), 0, body.len());
        assert(body@.subrange(0, body@.len() as int) =~= body@);
        Ok(out)
    }
}

/// Why a response head did not parse.
#[derive(Debug, Clone, Copy, PartialEq, Eq, Structural)]
pub enum HeadError {
    /// More headers than the slots offered.
    TooManyHeaders,
    /// Not an HTTP/1.x status line and header block.
    Invalid,
}

/// A parsed response head: its length in bytes, the status code, and the
/// headers in order.
#[derive(Debug)]
pub struct ResponseHead {
    pub len: usize,
    pub code: u16,
    pub headers: Vec<(String, Vec<u8>)>,
}

pub open spec fn header_view(h: (String, Vec<u8>)) -> (Seq<char>, Seq<u8>) {
    (h.0@, h.1@)
}

impl ResponseHead {
    pub open spec fn parts(&self) -> (nat, u16, Seq<(Seq<char>, Seq<u8>)>) {
        (self.len as nat, self.code, self.headers@.map_values(|h: (String, Vec<u8>)| header_view(h)))
    }
}

/// What httparse's response parser makes of `bytes` with `max_headers`
/// header slots: a complete head, a need for more bytes (`None`), or an
/// error.
pub uninterp spec fn response_head_parse(
    bytes: Seq<u8>,
    max_headers: nat,
) -> Result<Option<(nat, u16, Seq<(Seq<char>, Seq<u8>)>)>, HeadError>;

/// Relies on httparse::Response::parse: the outcome depends on the bytes and
/// the number of header slots alone, and a complete head lies within the
/// bytes.
#[verifier::external_body]
fn parse_response(bytes: &[u8], max_headers: usize) -> (r: Result<Option<ResponseHead>, HeadError>)
    ensures
        match response_head_parse(bytes@, max_headers as nat) {
            Ok(Some(v)) => r matches Ok(Some(h)) && h.parts() == v,
            Ok(None) => r matches Ok(None),
            Err(e) => r == Err::<Option<ResponseHead>, HeadError>(e),
        },
        r matches Ok(Some(h)) ==> h.len <= bytes@.len(),
{
    let mut slots = vec![httparse::EMPTY_HEADER; max_headers];
    let mut resp = httparse::Response::new(&mut slots);
    match resp.parse(bytes) {
        Ok(httparse::Status::Complete(len)) => Ok(Some(ResponseHead {
            len,
            code: resp.code.unwrap_or_default(),
            headers: resp.headers.iter().map(|h| (h.name.to_string(), h.value.to_vec())).collect(),
        })),
        Ok(httparse::Status::Partial) => Ok(None),
        Err(httparse::Error::TooManyHeaders) => Err(HeadError::TooManyHeaders),
        Err(_) => Err(HeadError::Invalid),
    }
}

/// Header slots offered on the first attempt; each later attempt offers
/// this many more.
pub const HEADER_SLOTS_STEP: usize = 128;

/// The head of `bytes`, tried with `slots` header slots and then with
/// `HEADER_SLOTS_STEP` more each time there are too many headers. A head of
/// `n` bytes holds fewer than `n / 2` headers (each header line takes at
/// least a name byte, `:` and a line end), so escalation stops once the
/// slots exceed that: no well-formed head is refused for its size.
pub open spec fn escalated_head(bytes: Seq<u8>, slots: nat) -> Result<
    Option<(nat, u16, Seq<(Seq<char>, Seq<u8>)>)>,
    IpfsErrorKind,
>
    decreases (bytes.len() + HEADER_SLOTS_STEP as nat) - slots,
{
    if slots == 0 {
        Err(IpfsErrorKind::RequestError)
    } else {
        match response_head_parse(bytes, slots) {
            Ok(v) => Ok(v),
            Err(HeadError::TooManyHeaders) => if slots > bytes.len() / 2 {
                Err(IpfsErrorKind::RequestError)
            } else {
                escalated_head(bytes, slots + HEADER_SLOTS_STEP as nat)
            },
            Err(HeadError::Invalid) => Err(IpfsErrorKind::RequestError),
        }
    }
}

/// Parses the response head at the start of `bulk`: `Ok(None)` while more
/// bytes are needed, `RequestError` when the bytes are no response head.
/// The header budget grows as `escalated_head` says.
pub fn read_response_head(bulk: &[u8]) -> (r: Result<Option<ResponseHead>, IpfsErrorKind>)
    ensures
        match escalated_head(bulk@, HEADER_SLOTS_STEP as nat) {
            Ok(Some(v)) => r matches Ok(Some(h)) && h.parts() == v && h.len <= bulk@.len(),
            Ok(None) => r matches Ok(None),
            Err(e) => r == Err::<Option<ResponseHead>, IpfsErrorKind>(e),
        },
{
    let mut slots: usize = HEADER_SLOTS_STEP;
    loop
        invariant
            slots >= HEADER_SLOTS_STEP,
            slots <= bulk@.len() / 2 + HEADER_SLOTS_STEP,
            escalated_head(bulk@, HEADER_SLOTS_STEP as nat) == escalated_head(bulk@, slots as nat),
        decreases (bulk@.len() + HEADER_SLOTS_STEP) - slots,
    {
        match parse_response(bulk, slots) {
            Ok(v) => {
                return Ok(v);
            },
            Err(HeadError::TooManyHeaders) => {
                if slots > bulk.len() / 2 {
                    return Err(IpfsErrorKind::RequestError);
                }
            },
            Err(HeadError::Invalid) => {
                return Err(IpfsErrorKind::RequestError);
            },
        }
        slots = slots + HEADER_SLOTS_STEP;
    }
}

/// What the read loop does with the head bytes it holds: `Ok(Some(head))`
/// once the head is complete, `Ok(None)` to read more, and `RequestError`
/// when the bytes are no response head or the transport ended (`eof`)
/// before the head did.
pub fn response_head_step(bulk: &[u8], eof: bool) -> (r: Result<Option<ResponseHead>, IpfsErrorKind>)
    ensures
        match escalated_head(bulk@, HEADER_SLOTS_STEP as nat) {
            Ok(Some(v)) => r matches Ok(Some(h)) && h.parts() == v && h.len <= bulk@.len(),
            Ok(None) => if eof {
                r == Err::<Option<ResponseHead>, IpfsErrorKind>(IpfsErrorKind::RequestError)
            } else {
                r matches Ok(None)
            },
            Err(e) => r == Err::<Option<ResponseHead>, IpfsErrorKind>(e),
        },
{
    match read_response_head(bulk) {
        Ok(None) => if eof {
            Err(IpfsErrorKind::RequestError)
        } else {
            Ok(None)
        },
        other => other,
    }
}

/// Port used when a URL names none and its scheme has no default.
pub const FALLBACK_PORT: u16 = 5001;

impl HttpRaw {
    /// Where the transport connects: the URL's host, with its port (given
    /// or the scheme's default) or else `FALLBACK_PORT`. A URL without a
    /// host is `InvalidParameter`.
    pub fn connect_address(&self) -> (r: Result<(String, u16), IpfsErrorKind>)
        ensures
            match self.url_spec().host {
                Some(h) => r matches Ok((s, p)) && s@ == h@ && p == match self.url_spec().port {
                    Some(x) => x,
                    None => FALLBACK_PORT,
                },
                None => r == Err::<(String, u16), IpfsErrorKind>(IpfsErrorKind::InvalidParameter),
            },
    {
        let host = match &self.url.host {
            Some(h) => h.clone(),
            None => return Err(IpfsErrorKind::InvalidParameter),
        };
        let port = match self.url.port {
            Some(p) => p,
            None => FALLBACK_PORT,
        };
        Ok((host, port))
    }
}

} // verus!
