//! Responses and their encoding for the wire.
use vstd::prelude::*;

use crate::fields::Fields;
use crate::status::StatusCode;
use crate::version::Version;

verus! {

/// The version token of a status line. A response that carries no known
/// version is sent as `HTTP/1.1`.
pub open spec fn wire_version(v: Version) -> Seq<char> {
    if v == Version::Unknown {
        "HTTP/1.1"@
    } else {
        v.token()
    }
}

/// `<version> <code> <reason>` and a line end.
pub open spec fn status_line(v: Version, s: StatusCode) -> Seq<char> {
    wire_version(v) + " "@ + s.text() + "\r\n"@
}

/// One `<name>: <value>` line per header, in the order the headers are
/// kept.
pub open spec fn header_lines(h: Seq<(Seq<char>, Seq<char>)>) -> Seq<char>
    decreases h.len(),
{
    if h.len() == 0 {
        Seq::<char>::empty()
    } else {
        header_lines(h.drop_last()) + h.last().0 + ": "@ + h.last().1 + "\r\n"@
    }
}

/// The head of a response as it goes on the wire: status line, header
/// lines, and the blank line that ends them.
pub open spec fn head_text(v: Version, s: StatusCode, h: Seq<(Seq<char>, Seq<char>)>) -> Seq<
    char,
> {
    status_line(v, s) + header_lines(h) + "\r\n"@
}

/// The status line and headers of a response.
pub struct Parts {
    pub status_code: StatusCode,
    pub version: Version,
    pub headers: Fields,
}

/// A response: its head and, where there is one, its body.
pub struct Response {
    pub head: Parts,
    pub body: Option<Vec<u8>>,
}

impl Parts {
    pub fn new(status_code: StatusCode, version: Version) -> (r: Parts)
        ensures
            r.status_code == status_code,
            r.version == version,
            r.headers@ == Seq::<(Seq<char>, Seq<char>)>::empty(),
    {
        Parts { status_code, version, headers: Fields::new() }
    }
}

impl Response {
    pub fn new(head: Parts, body: Option<Vec<u8>>) -> (r: Response)
        ensures
            r.head == head,
            r.body == body,
    {
        Response { head, body }
    }

    /// The head as it goes on the wire, ending in the blank line, so that
    /// the body can follow it in a second write.
    pub fn to_http_headers_only(&self) -> (r: String)
        ensures
            r@ == head_text(self.head.version, self.head.status_code, self.head.headers@),
    {
        let mut out = String::from_str(
            if self.head.version == Version::Unknown {
                "HTTP/1.1"
            } else {
                self.head.version.as_str()
            },
        );
        out.append(" ");
        let status = self.head.status_code.as_str();
        out.append(status.as_str());
        out.append("\r\n");
        let ghost h = self.head.headers@;
        let n = self.head.headers.len();
        let mut i: usize = 0;
        assert(h.subrange(0, 0) =~= Seq::<(Seq<char>, Seq<char>)>::empty());
        while i < n
            invariant
                h == self.head.headers@,
                n == h.len(),
                i <= n,
                out@ == status_line(self.head.version, self.head.status_code) + header_lines(
                    h.subrange(0, i as int),
                ),
            decreases n - i,
        {
            let (name, value) = self.head.headers.entry(i);
            out.append(name.as_str());
            out.append(": ");
            out.append(value.as_str());
            out.append("\r\n");
            proof {
                let t = h.subrange(0, i + 1);
                assert(t.drop_last() =~= h.subrange(0, i as int));
                assert(t.last() == h[i as int]);
                assert(out@ =~= status_line(self.head.version, self.head.status_code)
                    + header_lines(t));
            }
            i += 1;
        }
        assert(h.subrange(0, n as int) =~= h);
        out.append("\r\n");
        out
    }
}

/// Encoding does not depend on anything but the response's status,
/// version and headers: two responses that agree on them encode to the
/// same text, and encoding one response twice gives the same text twice.
pub proof fn lemma_encoding_is_deterministic(a: Response, b: Response)
    requires
        a.head.status_code == b.head.status_code,
        a.head.version == b.head.version,
        a.head.headers@ == b.head.headers@,
    ensures
        head_text(a.head.version, a.head.status_code, a.head.headers@) == head_text(
            b.head.version,
            b.head.status_code,
            b.head.headers@,
        ),
{
}

} // verus!
