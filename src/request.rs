//! Requests and the steps that decode one from the lines and bytes of a
//! connection: the start line, header lines, and the body's length.
use vstd::prelude::*;

use crate::fields::{lookup, Fields};
use crate::text::{
    chars_of, digits_value, find, find_from, parse_decimal, parse_usize, substring,
    unsigned_digits,
};
use crate::version::Version;

verus! {

/// `s` without the line terminators at its end.
pub open spec fn strip_eol(s: Seq<char>) -> Seq<char>
    decreases s.len(),
{
    if s.len() > 0 && (s.last() == '\r' || s.last() == '\n') {
        strip_eol(s.drop_last())
    } else {
        s
    }
}

/// The characters that Rust's `char::is_whitespace` accepts (Unicode
/// `White_Space`).
pub open spec fn is_space(c: char) -> bool {
    c == '\t' || c == '\n' || c == '\u{0B}' || c == '\u{0C}' || c == '\r' || c == ' '
        || c == '\u{85}' || c == '\u{A0}' || c == '\u{1680}' || ('\u{2000}' <= c && c
        <= '\u{200A}') || c == '\u{2028}' || c == '\u{2029}' || c == '\u{202F}' || c
        == '\u{205F}' || c == '\u{3000}'
}

/// `s` without the whitespace at its end.
pub open spec fn strip_trailing_space(s: Seq<char>) -> Seq<char>
    decreases s.len(),
{
    if s.len() > 0 && is_space(s.last()) {
        strip_trailing_space(s.drop_last())
    } else {
        s
    }
}

/// What stands before the first space of `s` (all of `s` if it has none).
pub open spec fn before_space(s: Seq<char>) -> Seq<char> {
    let k = find_from(s, seq![' '], 0);
    if k < 0 {
        s
    } else {
        s.subrange(0, k)
    }
}

/// What stands after the first space of `s` (nothing if it has none).
pub open spec fn after_space(s: Seq<char>) -> Seq<char> {
    let k = find_from(s, seq![' '], 0);
    if k < 0 {
        Seq::<char>::empty()
    } else {
        s.subrange(k + 1, s.len() as int)
    }
}

/// The method of a start line: its first space-separated token.
pub open spec fn line_method(line: Seq<char>) -> Seq<char> {
    before_space(strip_eol(line))
}

/// The path of a start line: its second token.
pub open spec fn line_path(line: Seq<char>) -> Seq<char> {
    before_space(after_space(strip_eol(line)))
}

/// The version token of a start line: all that follows the second space.
pub open spec fn line_version(line: Seq<char>) -> Seq<char> {
    after_space(after_space(strip_eol(line)))
}

/// The name and value of a header line, split at its first `": "`.
pub open spec fn header_pair(line: Seq<char>) -> Option<(Seq<char>, Seq<char>)> {
    let s = strip_trailing_space(line);
    let k = find_from(s, ": "@, 0);
    if k < 0 {
        None
    } else {
        Some((s.subrange(0, k), s.subrange(k + 2, s.len() as int)))
    }
}

/// The body length that headers announce: the `Content-Length` value where
/// it reads as a number, else 0.
pub open spec fn announced_length(h: Seq<(Seq<char>, Seq<char>)>) -> nat {
    match lookup(h, "Content-Length"@) {
        Some(v) => match parse_usize(v) {
            Some(n) => n,
            None => 0,
        },
        None => 0,
    }
}

/// A `Content-Length` of `0` and no `Content-Length` at all announce the
/// same thing: no body.
pub proof fn lemma_zero_length_as_absent(h: Seq<(Seq<char>, Seq<char>)>)
    requires
        lookup(h, "Content-Length"@) == Some("0"@) || lookup(h, "Content-Length"@).is_none(),
    ensures
        announced_length(h) == 0,
{
    reveal_strlit("0");
    let z = "0"@;
    assert(unsigned_digits(z) == z);
    assert(z.drop_last() =~= Seq::<char>::empty());
    assert(digits_value(Seq::<char>::empty()) == 0);
    assert(z.last() == '0');
    assert(digits_value(z) == 0);
}

/// The start line and headers of a request.
pub struct Parts {
    pub method: String,
    pub path: String,
    pub version: Version,
    pub headers: Fields,
}

/// A request: its head and, where one was sent, its body.
pub struct Request {
    pub head: Parts,
    pub body: Option<Vec<u8>>,
}

/// The bounds of `s` after the first space, and of what stands before it.
fn split_space(s: &str, cs: &Vec<char>) -> (r: (usize, usize))
    requires
        cs@ == s@,
    ensures
        r.0 <= r.1 <= s@.len(),
        s@.subrange(0, r.0 as int) == before_space(s@),
        s@.subrange(r.1 as int, s@.len() as int) == after_space(s@),
{
    let space: Vec<char> = vec![' '];
    assert(space@ =~= seq![' ']);
    let n = cs.len();
    match find(cs, &space, 0) {
        Some(k) => {
            proof {
                lemma_find_in_range(s@, seq![' '], 0);
            }
            (k, k + 1)
        },
        None => {
            assert(s@.subrange(0, n as int) =~= s@);
            assert(s@.subrange(n as int, n as int) =~= Seq::<char>::empty());
            (n, n)
        },
    }
}

/// A position that `find_from` gives leaves room for `sep` after it.
pub proof fn lemma_find_in_range(s: Seq<char>, sep: Seq<char>, i: int)
    ensures
        find_from(s, sep, i) == -1 || (i <= find_from(s, sep, i) && find_from(s, sep, i)
            + sep.len() <= s.len() && s.subrange(
            find_from(s, sep, i),
            find_from(s, sep, i) + sep.len(),
        ) == sep),
    decreases s.len() + 1 - i,
{
    if !(i < 0 || i + sep.len() > s.len()) && s.subrange(i, i + sep.len()) != sep {
        lemma_find_in_range(s, sep, i + 1);
    }
}

/// The length of `s` once the line terminators at its end are left out.
fn eol_bound(cs: &Vec<char>) -> (r: usize)
    ensures
        r <= cs@.len(),
        cs@.subrange(0, r as int) == strip_eol(cs@),
{
    let mut n = cs.len();
    assert(cs@.subrange(0, n as int) =~= cs@);
    while n > 0 && (cs[n - 1] == '\r' || cs[n - 1] == '\n')
        invariant
            n <= cs@.len(),
            strip_eol(cs@) == strip_eol(cs@.subrange(0, n as int)),
        decreases n,
    {
        assert(cs@.subrange(0, n as int).drop_last() =~= cs@.subrange(0, n - 1));
        n -= 1;
    }
    n
}

fn is_whitespace_char(c: char) -> (r: bool)
    ensures
        r == is_space(c),
{
    c == '\t' || c == '\n' || c == '\u{0B}' || c == '\u{0C}' || c == '\r' || c == ' '
        || c == '\u{85}' || c == '\u{A0}' || c == '\u{1680}' || ('\u{2000}' <= c && c
        <= '\u{200A}') || c == '\u{2028}' || c == '\u{2029}' || c == '\u{202F}' || c
        == '\u{205F}' || c == '\u{3000}'
}

/// The length of `s` once the whitespace at its end is left out.
fn space_bound(cs: &Vec<char>) -> (r: usize)
    ensures
        r <= cs@.len(),
        cs@.subrange(0, r as int) == strip_trailing_space(cs@),
{
    let mut n = cs.len();
    assert(cs@.subrange(0, n as int) =~= cs@);
    while n > 0 && is_whitespace_char(cs[n - 1])
        invariant
            n <= cs@.len(),
            strip_trailing_space(cs@) == strip_trailing_space(cs@.subrange(0, n as int)),
        decreases n,
    {
        assert(cs@.subrange(0, n as int).drop_last() =~= cs@.subrange(0, n - 1));
        n -= 1;
    }
    n
}

/// `s` with its line terminators left out.
fn strip_line(s: &str) -> (r: String)
    ensures
        r@ == strip_eol(s@),
{
    let cs = chars_of(s);
    let n = eol_bound(&cs);
    substring(s, 0, n)
}

impl Parts {
    /// Decodes a start line. Missing tokens read as empty, and a version
    /// token that names no known version reads as `Version::Unknown`.
    pub fn new(request_line: String) -> (r: Parts)
        ensures
            r.method@ == line_method(request_line@),
            r.path@ == line_path(request_line@),
            r.version == Version::parse(line_version(request_line@)),
            r.headers@ == Seq::<(Seq<char>, Seq<char>)>::empty(),
    {
        let line = strip_line(request_line.as_str());
        let lc = chars_of(line.as_str());
        let (a, b) = split_space(line.as_str(), &lc);
        let method = substring(line.as_str(), 0, a);
        let rest = substring(line.as_str(), b, lc.len());
        let rc = chars_of(rest.as_str());
        let (c, d) = split_space(rest.as_str(), &rc);
        let path = substring(rest.as_str(), 0, c);
        let version = substring(rest.as_str(), d, rc.len());
        Parts { method, path, version: Version::from_str(version.as_str()), headers: Fields::new() }
    }

    /// Takes one line of the header block, without the whitespace at its
    /// end. A blank line ends the block and gives `false`; any other gives
    /// `true`, and is stored as a header where it holds `": "` (a later
    /// value replaces an earlier one).
    pub fn add_header_line(&mut self, line: &str) -> (more: bool)
        ensures
            more == (strip_trailing_space(line@).len() > 0),
            final(self).method == old(self).method,
            final(self).path == old(self).path,
            final(self).version == old(self).version,
            final(self).headers@ == match header_pair(line@) {
                Some(p) => if more {
                    crate::fields::insert_pair(old(self).headers@, p.0, p.1)
                } else {
                    old(self).headers@
                },
                None => old(self).headers@,
            },
    {
        let cs = chars_of(line);
        let n = space_bound(&cs);
        if n == 0 {
            proof {
                if header_pair(line@).is_some() {
                    lemma_find_in_range(strip_trailing_space(line@), ": "@, 0);
                }
            }
            return false;
        }
        let sep: Vec<char> = vec![':', ' '];
        proof {
            reveal_strlit(": ");
            assert(sep@ =~= ": "@);
        }
        let ghost s = strip_trailing_space(line@);
        let stripped = substring(line, 0, n);
        let sc = chars_of(stripped.as_str());
        match find(&sc, &sep, 0) {
            Some(k) => {
                proof {
                    lemma_find_in_range(s, ": "@, 0);
                }
                let name = substring(stripped.as_str(), 0, k);
                let value = substring(stripped.as_str(), k + 2, n);
                self.headers.insert(name, value);
            },
            None => {},
        }
        true
    }

    /// The body length that the headers announce: the `Content-Length`
    /// value where it reads as a number, else 0.
    pub fn content_length(&self) -> (r: usize)
        ensures
            r as nat == announced_length(self.headers@),
    {
        proof {
            reveal_strlit("Content-Length");
        }
        match self.headers.get("Content-Length") {
            Some(v) => match parse_decimal(v.as_str()) {
                Some(n) => n,
                None => 0,
            },
            None => 0,
        }
    }
}

impl Request {
    pub fn new(head: Parts, body: Option<Vec<u8>>) -> (r: Request)
        ensures
            r.head == head,
            r.body == body,
    {
        Request { head, body }
    }

    /// A request from its head and the bytes read after it; no bytes means
    /// no body.
    pub fn with_body_bytes(head: Parts, body: Vec<u8>) -> (r: Request)
        ensures
            r.head == head,
            r.body == if body@.len() == 0 {
                None
            } else {
                Some(body)
            },
    {
        if body.len() == 0 {
            Request { head, body: None }
        } else {
            Request { head, body: Some(body) }
        }
    }
}

} // verus!
