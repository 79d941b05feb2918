//! The protocol versions that a start line can name.
use vstd::prelude::*;

use crate::text::str_eq;

verus! {

/// A protocol version; tokens that name none of the known ones read as
/// `Unknown`.
#[derive(Clone, Copy, Debug, PartialEq, Eq, Structural, Hash)]
pub enum Version {
    Http09,
    Http10,
    Http11,
    H2,
    H3,
    Unknown,
}

impl Version {
    pub const HTTP_09: Version = Version::Http09;

    pub const HTTP_10: Version = Version::Http10;

    pub const HTTP_11: Version = Version::Http11;

    pub const HTTP_2: Version = Version::H2;

    pub const HTTP_3: Version = Version::H3;

    pub const UNKNOWN: Version = Version::Unknown;

    /// The wire token of each known version, and `Unknown` for the rest.
    pub open spec fn token(self) -> Seq<char> {
        if self == Version::HTTP_09 {
            "HTTP/0.9"@
        } else if self == Version::HTTP_10 {
            "HTTP/1.0"@
        } else if self == Version::HTTP_11 {
            "HTTP/1.1"@
        } else if self == Version::HTTP_2 {
            "HTTP/2"@
        } else if self == Version::HTTP_3 {
            "HTTP/3"@
        } else {
            "Unknown"@
        }
    }

    /// The version that a wire token names.
    pub open spec fn parse(s: Seq<char>) -> Version {
        if s == "HTTP/0.9"@ {
            Version::HTTP_09
        } else if s == "HTTP/1.0"@ {
            Version::HTTP_10
        } else if s == "HTTP/1.1"@ {
            Version::HTTP_11
        } else if s == "HTTP/2"@ {
            Version::HTTP_2
        } else if s == "HTTP/3"@ {
            Version::HTTP_3
        } else {
            Version::UNKNOWN
        }
    }

    pub fn from_str(src: &str) -> (r: Version)
        ensures
            r == Version::parse(src@),
    {
        if str_eq(src, "HTTP/0.9") {
            Version::HTTP_09
        } else if str_eq(src, "HTTP/1.0") {
            Version::HTTP_10
        } else if str_eq(src, "HTTP/1.1") {
            Version::HTTP_11
        } else if str_eq(src, "HTTP/2") {
            Version::HTTP_2
        } else if str_eq(src, "HTTP/3") {
            Version::HTTP_3
        } else {
            Version::UNKNOWN
        }
    }

    /// The wire token of this version (`Unknown` where there is none).
    pub fn as_str(&self) -> (r: &'static str)
        ensures
            r@ == self.token(),
    {
        match self {
            Version::Http09 => "HTTP/0.9",
            Version::Http10 => "HTTP/1.0",
            Version::Http11 => "HTTP/1.1",
            Version::H2 => "HTTP/2",
            Version::H3 => "HTTP/3",
            Version::Unknown => "Unknown",
        }
    }
}

impl Default for Version {
    fn default() -> (r: Version)
        ensures
            r == Version::HTTP_11,
    {
        Version::HTTP_11
    }
}

} // verus!
