//! The health-check resource: one GET against a fixed path, answered by
//! a single success flag.

use vstd::prelude::*;
use crate::client::Client;
use crate::http::{HttpOutcome, OutcomeModel, spec_fetch_json, fetch_json};
use crate::json::{Json, JsonValue, lemma_obj_model, spec_field_bool, field_bool};
use crate::STATUS_BAD_REQUEST;

verus! {

/// The payload of the health-check endpoint.
#[derive(Debug, Clone, Copy, PartialEq, Eq)]
pub struct PingResponse {
    pub success: bool,
}

/// The payload denoted by one JSON document.
pub open spec fn spec_ping_response_of(j: Json) -> Option<PingResponse> {
    match j {
        Json::Obj(fs) => match spec_field_bool(fs, "success"@) {
            Some(success) => Some(PingResponse { success }),
            None => None,
        },
        _ => None,
    }
}

/// Decodes the health-check payload.
pub fn ping_response_of_json(v: &JsonValue) -> (r: Option<PingResponse>)
    ensures
        (match r {
            Some(resp) => spec_ping_response_of(v.model()) == Some(resp),
            None => spec_ping_response_of(v.model()) is None,
        }),
{
    let fs = match v {
        JsonValue::Obj(fs) => fs,
        _ => {
            return None;
        },
    };
    proof {
        lemma_obj_model(*fs);
    }
    match field_bool(fs, "success") {
        Some(success) => Some(PingResponse { success }),
        None => None,
    }
}

/// The payload owed for an outcome of the health-check endpoint.
pub open spec fn spec_ping(o: OutcomeModel) -> Result<PingResponse, u16> {
    match spec_fetch_json(o) {
        Err(e) => Err(e),
        Ok(j) => match spec_ping_response_of(j) {
            None => Err(STATUS_BAD_REQUEST),
            Some(resp) => Ok(resp),
        },
    }
}

impl Client {
    /// Ping the upstream API: decode what the health-check endpoint's GET
    /// came back with.
    ///
    /// # Errors
    /// If the upstream API answers with an error, then the corresponding
    /// HTTP error code is returned.
    pub fn ping(&self, outcome: HttpOutcome) -> (r: Result<PingResponse, u16>)
        ensures
            r == spec_ping(outcome.model()),
    {
        let j = match fetch_json(outcome) {
            Ok(j) => j,
            Err(e) => {
                return Err(e);
            },
        };
        match ping_response_of_json(&j) {
            Some(resp) => Ok(resp),
            None => Err(STATUS_BAD_REQUEST),
        }
    }
}

/// Law: the accessor surfaces every transport or decode failure as the
/// pathway's error code — an upstream error status as itself, and a body
/// that does not decode into the expected shape as the bad-request code.
pub proof fn lemma_ping_error_mapping(o: OutcomeModel)
    ensures
        spec_fetch_json(o) matches Err(e) ==> spec_ping(o) == Err::<PingResponse, u16>(e),
        (spec_fetch_json(o) matches Ok(j) && spec_ping_response_of(j) is None) ==> spec_ping(o) == Err::<PingResponse, u16>(
            STATUS_BAD_REQUEST,
        ),
{
}

} // verus!
