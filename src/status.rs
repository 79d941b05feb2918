//! The status codes that responses carry, with their reason phrases.
use vstd::prelude::*;

use crate::text::{decimal, decimal_string};

verus! {

#[derive(Clone, Copy, Debug, PartialEq, Eq, Structural, Hash)]
pub enum StatusCode {
    Success,
    Created,
    NotFound,
    InternalServerError,
}

impl StatusCode {
    pub const OK: StatusCode = StatusCode::Success;

    pub const CREATED: StatusCode = StatusCode::Created;

    pub const NOT_FOUND: StatusCode = StatusCode::NotFound;

    pub const INTERNAL_SERVER_ERROR: StatusCode = StatusCode::InternalServerError;

    pub open spec fn number(self) -> nat {
        match self {
            StatusCode::Success => 200,
            StatusCode::Created => 201,
            StatusCode::NotFound => 404,
            StatusCode::InternalServerError => 500,
        }
    }

    pub open spec fn reason(self) -> Seq<char> {
        match self {
            StatusCode::Success => "OK"@,
            StatusCode::Created => "Created"@,
            StatusCode::NotFound => "Not Found"@,
            StatusCode::InternalServerError => "Internal Server Error"@,
        }
    }

    /// The code followed by a space and the reason phrase.
    pub open spec fn text(self) -> Seq<char> {
        decimal(self.number()) + " "@ + self.reason()
    }

    pub fn code(&self) -> (r: u16)
        ensures
            r as nat == self.number(),
    {
        match self {
            StatusCode::Success => 200,
            StatusCode::Created => 201,
            StatusCode::NotFound => 404,
            StatusCode::InternalServerError => 500,
        }
    }

    pub fn reason_phrase(&self) -> (r: &'static str)
        ensures
            r@ == self.reason(),
    {
        match self {
            StatusCode::Success => "OK",
            StatusCode::Created => "Created",
            StatusCode::NotFound => "Not Found",
            StatusCode::InternalServerError => "Internal Server Error",
        }
    }

    pub fn as_str(&self) -> (r: String)
        ensures
            r@ == self.text(),
    {
        let mut s = decimal_string(self.code() as usize);
        s.append(" ");
        s.append(self.reason_phrase());
        s
    }
}

} // verus!
