//! The transport pathway: what an HTTP GET came back with, and how that is
//! mapped to either a parsed JSON document or a single numeric error code.
//!
//! The GET itself is I/O and happens outside this crate; the caller hands
//! in an [`HttpOutcome`] holding plain values. Every accessor then follows
//! the same rules:
//! - a response with a non-OK status fails with that status code;
//! - a transport failure carrying a status fails with that status code;
//! - a transport failure without a status fails with the bad-request code;
//! - an OK response whose body is not a JSON document of the expected
//!   shape fails with the bad-request code.

use vstd::prelude::*;
use crate::json::{spec_parse_json, parse_json, Json, JsonValue};
use crate::{STATUS_OK, STATUS_BAD_REQUEST};

verus! {

/// What one HTTP GET came back with, as plain values.
pub enum HttpOutcome {
    /// The server answered with a status code and a body.
    Response { status: u16, body: String },
    /// The transport failed, but the failure carries a status code.
    FailureWithStatus { status: u16 },
    /// The transport failed with no status at all (connection refused,
    /// name resolution, and the like).
    Failure,
}

/// The mathematical model of an [`HttpOutcome`].
pub enum OutcomeModel {
    Response { status: u16, body: Seq<char> },
    FailureWithStatus { status: u16 },
    Failure,
}

impl HttpOutcome {
    /// The model of this outcome.
    pub open spec fn model(self) -> OutcomeModel {
        match self {
            HttpOutcome::Response { status, body } => OutcomeModel::Response {
                status,
                body: body@,
            },
            HttpOutcome::FailureWithStatus { status } => OutcomeModel::FailureWithStatus {
                status,
            },
            HttpOutcome::Failure => OutcomeModel::Failure,
        }
    }
}

/// The body owed by an outcome: the response body on an OK status, and
/// otherwise the error code the outcome maps to.
pub open spec fn spec_body_of(o: OutcomeModel) -> Result<Seq<char>, u16> {
    match o {
        OutcomeModel::Response { status, body } => if status == STATUS_OK {
            Ok(body)
        } else {
            Err(status)
        },
        OutcomeModel::FailureWithStatus { status } => Err(status),
        OutcomeModel::Failure => Err(STATUS_BAD_REQUEST),
    }
}

/// The JSON document owed by an outcome: the parsed body of an OK
/// response; a body that is not well-formed JSON maps to the bad-request
/// code.
pub open spec fn spec_fetch_json(o: OutcomeModel) -> Result<Json, u16> {
    match spec_body_of(o) {
        Err(e) => Err(e),
        Ok(b) => match spec_parse_json(b) {
            None => Err(STATUS_BAD_REQUEST),
            Some(j) => Ok(j),
        },
    }
}

/// Law: how every outcome maps to an error — a response with a non-OK
/// status yields exactly that status code; a transport failure carrying a
/// status yields that status code; a transport failure without a status
/// yields the bad-request code; an OK response whose body is not
/// well-formed JSON yields the bad-request code.
pub proof fn lemma_outcome_error_mapping(o: OutcomeModel)
    ensures
        (o matches OutcomeModel::Response { status, body } && status != STATUS_OK)
            ==> spec_fetch_json(o) == Err::<Json, u16>(o->Response_status),
        o matches OutcomeModel::FailureWithStatus { status } ==> spec_fetch_json(o) == Err::<
            Json,
            u16,
        >(status),
        o is Failure ==> spec_fetch_json(o) == Err::<Json, u16>(STATUS_BAD_REQUEST),
        (o matches OutcomeModel::Response { status, body } && status == STATUS_OK
            && spec_parse_json(body) is None) ==> spec_fetch_json(o) == Err::<Json, u16>(
            STATUS_BAD_REQUEST,
        ),
{
}

/// Maps an outcome to its parsed JSON document or its error code.
pub fn fetch_json(o: HttpOutcome) -> (r: Result<JsonValue, u16>)
    ensures
        (match r {
            Ok(v) => spec_fetch_json(o.model()) == Ok::<Json, u16>(v.model()),
            Err(e) => spec_fetch_json(o.model()) == Err::<Json, u16>(e),
        }),
{
    match o {
        HttpOutcome::Response { status, body } => {
            if status != STATUS_OK {
                return Err(status);
            }
            match parse_json(body.as_str()) {
                None => Err(STATUS_BAD_REQUEST),
                Some(v) => Ok(v),
            }
        },
        HttpOutcome::FailureWithStatus { status } => Err(status),
        HttpOutcome::Failure => Err(STATUS_BAD_REQUEST),
    }
}

} // verus!