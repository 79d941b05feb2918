//! The handlers behind the server's routes, and the pure halves of those
//! that touch the file system.
use vstd::prelude::*;
use vstd::string::*;
use vstd::utf8::encode_utf8;

use crate::fields::{lookup, Fields};
use crate::request::Request;
use crate::response::{Parts, Response};
use crate::route::Handler;
use crate::status::StatusCode;
use crate::text::{
    chars_of, contains, decimal, decimal_string, split_on, split_range, str_contains, str_eq, views,
};
use crate::version::Version;

verus! {

/// The gzip member that `flate2` writes for `data` at the default level.
pub uninterp spec fn gzip_of(data: Seq<u8>) -> Seq<u8>;

/// Relies on `flate2::write::GzEncoder` (default level, header without
/// time stamp or name): writing `data` and finishing gives the bytes of
/// one gzip member, which depend on `data` alone. Writing into a `Vec`
/// cannot fail, and the deflate stream reports an error only for a
/// dictionary or bad parameters, neither of which arises here, so the
/// result is always `Some`.
#[verifier::external_body]
fn gzip(data: &[u8]) -> (r: Option<Vec<u8>>)
    ensures
        r.is_some(),
        r.unwrap()@ == gzip_of(data@),
{
    let mut encoder = flate2::write::GzEncoder::new(Vec::new(), flate2::Compression::default());
    match std::io::Write::write_all(&mut encoder, data) {
        Ok(()) => encoder.finish().ok(),
        Err(_) => None,
    }
}

/// The value stored under `name`, or nothing.
pub open spec fn value_or_empty(f: Seq<(Seq<char>, Seq<char>)>, name: Seq<char>) -> Seq<char> {
    match lookup(f, name) {
        Some(v) => v,
        None => Seq::<char>::empty(),
    }
}

/// The request asks for a gzip body: its `Accept-Encoding` mentions `gzip`.
pub open spec fn wants_gzip(h: Seq<(Seq<char>, Seq<char>)>) -> bool {
    match lookup(h, "Accept-Encoding"@) {
        Some(v) => contains(v, "gzip"@),
        None => false,
    }
}

/// The headers of an echo: a plain-text type, the encoding where the body
/// is compressed, and the body's length.
pub open spec fn echo_headers(len: nat, gzipped: bool) -> Seq<(Seq<char>, Seq<char>)> {
    if gzipped {
        seq![
            ("Content-Type"@, "text/plain"@),
            ("Content-Encoding"@, "gzip"@),
            ("Content-Length"@, decimal(len)),
        ]
    } else {
        seq![("Content-Type"@, "text/plain"@), ("Content-Length"@, decimal(len))]
    }
}

/// The response that carries nothing but a status, and says that its
/// body is empty.
pub open spec fn is_bare(r: Response, s: StatusCode, v: Version) -> bool {
    &&& r.head.status_code == s
    &&& r.head.version == v
    &&& r.head.headers@ == seq![("Content-Length"@, "0"@)]
    &&& r.body.is_none()
}

/// A successful response with `body` under `headers`.
pub open spec fn is_ok_with(
    r: Response,
    v: Version,
    headers: Seq<(Seq<char>, Seq<char>)>,
    body: Seq<u8>,
) -> bool {
    &&& r.head.status_code == StatusCode::Success
    &&& r.head.version == v
    &&& r.head.headers@ == headers
    &&& r.body matches Some(b) && b@ == body
}

/// What the echo route answers: the `msg` parameter as plain text, or its
/// gzip form where the request asks for gzip.
pub open spec fn echo_answers(
    request: Request,
    params: Seq<(Seq<char>, Seq<char>)>,
    r: Response,
) -> bool {
    let body = encode_utf8(value_or_empty(params, "msg"@));
    if wants_gzip(request.head.headers@) {
        is_ok_with(r, request.head.version, echo_headers(gzip_of(body).len(), true), gzip_of(body))
    } else {
        is_ok_with(r, request.head.version, echo_headers(body.len(), false), body)
    }
}

/// What the user-agent route answers: the request's `User-Agent` header
/// (empty where it has none) as plain text.
pub open spec fn user_agent_answers(request: Request, r: Response) -> bool {
    let body = encode_utf8(value_or_empty(request.head.headers@, "User-Agent"@));
    is_ok_with(
        r,
        request.head.version,
        seq![("Content-Length"@, decimal(body.len())), ("Content-Type"@, "text/plain"@)],
        body,
    )
}

/// The name has a `..` segment.
pub open spec fn has_parent_segment(name: Seq<char>) -> bool {
    exists|i: int|
        0 <= i < split_on(name, '/').len() && #[trigger] split_on(name, '/')[i] == ".."@
}

/// Adds a header under a name that the headers do not hold yet.
fn add_new_header(f: &mut Fields, name: &str, value: String)
    requires
        forall|j: int| 0 <= j < old(f)@.len() ==> old(f)@[j].0 != name@,
    ensures
        final(f)@ == old(f)@.push((name@, value@)),
{
    proof {
        crate::fields::lemma_key_pos(old(f)@, name@);
    }
    f.insert(String::from_str(name), value);
}

proof fn lemma_header_names_differ()
    ensures
        "Content-Type"@ != "Content-Length"@,
        "Content-Type"@ != "Content-Encoding"@,
        "Content-Encoding"@ != "Content-Length"@,
{
    reveal_strlit("Content-Type");
    reveal_strlit("Content-Encoding");
    reveal_strlit("Content-Length");
    assert("Content-Type"@.len() == 12);
    assert("Content-Length"@.len() == 14);
    assert("Content-Encoding"@.len() == 16);
}

fn bare(status: StatusCode, version: Version) -> (r: Response)
    ensures
        is_bare(r, status, version),
{
    let mut head = Parts::new(status, version);
    head.headers.insert(String::from_str("Content-Length"), String::from_str("0"));
    assert(head.headers@ =~= seq![("Content-Length"@, "0"@)]);
    Response::new(head, None)
}

pub fn root_handler(req: &Request, _params: Fields) -> (r: Response)
    ensures
        is_bare(r, StatusCode::Success, req.head.version),
{
    bare(StatusCode::OK, req.head.version)
}

/// The echo of `msg`: the text itself, or, where `gzipped` holds its
/// compressed form, those bytes marked as gzip.
pub fn echo_response(version: Version, msg: &str, gzipped: Option<Vec<u8>>) -> (r: Response)
    ensures
        match gzipped {
            Some(g) => is_ok_with(r, version, echo_headers(g@.len(), true), g@),
            None => is_ok_with(
                r,
                version,
                echo_headers(encode_utf8(msg@).len(), false),
                encode_utf8(msg@),
            ),
        },
{
    proof {
        lemma_header_names_differ();
    }
    let mut head = Parts::new(StatusCode::OK, version);
    add_new_header(&mut head.headers, "Content-Type", String::from_str("text/plain"));
    let compressed = gzipped.is_some();
    let body = match gzipped {
        Some(g) => {
            add_new_header(&mut head.headers, "Content-Encoding", String::from_str("gzip"));
            g
        },
        None => msg.as_bytes_vec(),
    };
    add_new_header(&mut head.headers, "Content-Length", decimal_string(body.len()));
    let ghost h = head.headers@;
    let ghost b = body@;
    let r = Response::new(head, Some(body));
    assert(h =~= echo_headers(b.len(), compressed));
    r
}

/// Echoes the `msg` parameter, compressed with gzip where the request's
/// `Accept-Encoding` mentions it.
pub fn echo_handler(req: &Request, params: Fields) -> (r: Response)
    ensures
        echo_answers(*req, params@, r),
{
    let empty = String::new();
    let msg = match params.get("msg") {
        Some(m) => m,
        None => &empty,
    };
    let gz = match req.head.headers.get("Accept-Encoding") {
        Some(enc) => str_contains(enc.as_str(), "gzip"),
        None => false,
    };
    if gz {
        let plain = msg.as_str().as_bytes_vec();
        echo_response(req.head.version, msg.as_str(), gzip(plain.as_slice()))
    } else {
        echo_response(req.head.version, msg.as_str(), None)
    }
}

/// Answers with the request's `User-Agent` header (empty where it has
/// none) as a plain-text body.
pub fn user_agent_handler(req: &Request, _params: Fields) -> (r: Response)
    ensures
        user_agent_answers(*req, r),
{
    proof {
        lemma_header_names_differ();
    }
    let empty = String::new();
    let agent = match req.head.headers.get("User-Agent") {
        Some(a) => a,
        None => &empty,
    };
    let body = agent.as_str().as_bytes_vec();
    let mut head = Parts::new(StatusCode::OK, req.head.version);
    add_new_header(&mut head.headers, "Content-Length", decimal_string(body.len()));
    add_new_header(&mut head.headers, "Content-Type", String::from_str("text/plain"));
    let ghost h = head.headers@;
    let ghost b = body@;
    let r = Response::new(head, Some(body));
    assert(h =~= seq![("Content-Length"@, decimal(b.len())), ("Content-Type"@, "text/plain"@)]);
    r
}

/// The routes whose answers depend on the request alone.
#[derive(Clone, Copy, Debug, PartialEq, Eq, Structural)]
pub enum Endpoint {
    Root,
    Echo,
    UserAgent,
}

impl Handler for Endpoint {
    open spec fn answers(&self, request: Request, params: Seq<(Seq<char>, Seq<char>)>, r: Response) -> bool {
        match self {
            Endpoint::Root => is_bare(r, StatusCode::Success, request.head.version),
            Endpoint::Echo => echo_answers(request, params, r),
            Endpoint::UserAgent => user_agent_answers(request, r),
        }
    }

    fn handle(&self, request: &Request, params: Fields) -> (r: Response) {
        match self {
            Endpoint::Root => root_handler(request, params),
            Endpoint::Echo => echo_handler(request, params),
            Endpoint::UserAgent => user_agent_handler(request, params),
        }
    }
}

/// Whether a file name has a `..` segment.
pub fn is_traversal(name: &str) -> (r: bool)
    ensures
        r == has_parent_segment(name@),
{
    let cs = chars_of(name);
    let parts = split_range(name, &cs, 0, cs.len(), '/');
    assert(name@.subrange(0, name@.len() as int) =~= name@);
    let ghost v = views(parts@);
    let mut i: usize = 0;
    while i < parts.len()
        invariant
            v == views(parts@),
            v == split_on(name@, '/'),
            i <= parts@.len(),
            forall|j: int| 0 <= j < i ==> v[j] != ".."@,
        decreases parts@.len() - i,
    {
        assert(v[i as int] == parts@[i as int]@);
        if str_eq(parts[i].as_str(), "..") {
            return true;
        }
        i += 1;
    }
    false
}

/// The file that a file route names: the `filename` parameter, unless it
/// is missing or has a `..` segment.
pub fn file_target(params: &Fields) -> (r: Option<String>)
    ensures
        match r {
            Some(name) => lookup(params@, "filename"@) == Some(name@) && !has_parent_segment(
                name@,
            ),
            None => match lookup(params@, "filename"@) {
                Some(n) => has_parent_segment(n),
                None => true,
            },
        },
{
    match params.get("filename") {
        Some(name) => if is_traversal(name.as_str()) {
            None
        } else {
            Some(name.clone())
        },
        None => None,
    }
}

/// The answer to a file read: the contents as an octet stream, or a bare
/// 404 where there were none to read.
pub fn file_contents_response(version: Version, contents: Option<Vec<u8>>) -> (r: Response)
    ensures
        match contents {
            Some(c) => is_ok_with(
                r,
                version,
                seq![
                    ("Content-Length"@, decimal(c@.len())),
                    ("Content-Type"@, "application/octet-stream"@),
                ],
                c@,
            ),
            None => is_bare(r, StatusCode::NotFound, version),
        },
{
    proof {
        lemma_header_names_differ();
    }
    match contents {
        Some(c) => {
            let mut head = Parts::new(StatusCode::OK, version);
            add_new_header(&mut head.headers, "Content-Length", decimal_string(c.len()));
            add_new_header(&mut head.headers, "Content-Type", String::from_str("application/octet-stream"),
            );
            let ghost h = head.headers@;
            let ghost b = c@;
            let r = Response::new(head, Some(c));
            assert(h =~= seq![
                ("Content-Length"@, decimal(b.len())),
                ("Content-Type"@, "application/octet-stream"@),
            ]);
            r
        },
        None => bare(StatusCode::NOT_FOUND, version),
    }
}

/// The answer to a file upload: 201 where the file was written, else 500.
pub fn file_written_response(version: Version, written: bool) -> (r: Response)
    ensures
        written ==> is_bare(r, StatusCode::Created, version),
        !written ==> is_bare(r, StatusCode::InternalServerError, version),
{
    if written {
        bare(StatusCode::CREATED, version)
    } else {
        bare(StatusCode::INTERNAL_SERVER_ERROR, version)
    }
}

} // verus!
