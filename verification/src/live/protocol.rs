//! Requests and responses between the tools and an adapter.

use vstd::prelude::*;
use crate::json::{Json, JsonView};

verus! {

/// A request to an adapter.
#[derive(Debug)]
pub struct Request {
    pub id: u64,
    pub method: String,
    pub params: Json,
}

/// Why a request failed.
#[derive(Debug)]
pub struct ProtocolError {
    pub kind: String,
    pub message: String,
}

/// The answer to a request.
#[derive(Debug)]
pub struct Response {
    pub id: u64,
    pub ok: bool,
    pub result: Option<Json>,
    pub error: Option<ProtocolError>,
}

/// What an answer holds: a value, or the kind and message of an error.
pub struct ResponseView {
    pub id: u64,
    pub outcome: Result<JsonView, (Seq<char>, Seq<char>)>,
}

impl Response {
    /// Whether the answer is of the given form: exactly one of a value and an error, as `ok` says.
    pub open spec fn tells(self, expected: ResponseView) -> bool {
        &&& self.id == expected.id
        &&& match expected.outcome {
            Ok(v) => self.ok && self.error is None && self.result is Some && self.result->0@ == v,
            Err((kind, message)) => !self.ok && self.result is None && self.error is Some
                && self.error->0.kind@ == kind && self.error->0.message@ == message,
        }
    }

    /// The answer of a request that succeeded.
    pub fn success(id: u64, value: Json) -> (r: Response)
        ensures
            r.tells(ResponseView { id, outcome: Ok(value@) }),
    {
        Response { id, ok: true, result: Some(value), error: None }
    }

    /// The answer of a request that failed.
    pub fn failure(id: u64, kind: &str, message: String) -> (r: Response)
        ensures
            r.tells(ResponseView { id, outcome: Err((kind@, message@)) }),
    {
        Response {
            id,
            ok: false,
            result: None,
            error: Some(ProtocolError { kind: kind.to_owned(), message }),
        }
    }
}

} // verus!
