//! The conferences resource: a sub-client holding an optional conference
//! id, the URL it resolves to, and the decoding of what its GET came
//! back with.

use vstd::prelude::*;
use vstd::string::*;
use crate::http::{HttpOutcome, OutcomeModel, spec_fetch_json, fetch_json};
use crate::json::{
    Json, JsonValue, lemma_arr_model, lemma_obj_model, seq_model, spec_field_bool, spec_field_i64,
    spec_field_string, spec_obj_get, field_bool, field_i64, field_string, obj_get,
};
use crate::text::spec_dec_int;
use crate::{STATUS_BAD_REQUEST, seq_view};

verus! {

/// A sub-client for the conferences resource, holding the optional
/// conference id the next request is scoped to.
#[derive(Debug, PartialEq, Eq)]
pub struct ConferencesClient {
    pub id: Option<i32>,
}

/// One conference as the upstream API describes it.
#[derive(Debug, Clone, PartialEq, Eq)]
pub struct Conference {
    pub id: i64,
    pub name: String,
    pub link: String,
    pub abbreviation: String,
    pub short_name: String,
    pub active: bool,
}

/// The mathematical model of a [`Conference`].
pub struct ConferenceModel {
    pub id: int,
    pub name: Seq<char>,
    pub link: Seq<char>,
    pub abbreviation: Seq<char>,
    pub short_name: Seq<char>,
    pub active: bool,
}

impl View for Conference {
    type V = ConferenceModel;

    open spec fn view(&self) -> ConferenceModel {
        ConferenceModel {
            id: self.id as int,
            name: self.name@,
            link: self.link@,
            abbreviation: self.abbreviation@,
            short_name: self.short_name@,
            active: self.active,
        }
    }
}

/// The response envelope of the conferences resource.
#[derive(Debug, Clone, PartialEq, Eq)]
pub struct ConferencesResponse {
    pub copyright: String,
    pub conferences: Vec<Conference>,
}

/// The mathematical model of a [`ConferencesResponse`].
pub struct ConferencesResponseModel {
    pub copyright: Seq<char>,
    pub conferences: Seq<ConferenceModel>,
}

impl View for ConferencesResponse {
    type V = ConferencesResponseModel;

    open spec fn view(&self) -> ConferencesResponseModel {
        ConferencesResponseModel {
            copyright: self.copyright@,
            conferences: seq_view(self.conferences@),
        }
    }
}

/// The conference denoted by one JSON document.
pub open spec fn spec_conference_of(j: Json) -> Option<ConferenceModel> {
    match j {
        Json::Obj(fs) => if spec_field_i64(fs, "id"@) is Some && spec_field_string(
            fs,
            "name"@,
        ) is Some && spec_field_string(fs, "link"@) is Some && spec_field_string(
            fs,
            "abbreviation"@,
        ) is Some && spec_field_string(fs, "shortName"@) is Some && spec_field_bool(
            fs,
            "active"@,
        ) is Some {
            Some(
                ConferenceModel {
                    id: spec_field_i64(fs, "id"@)->Some_0,
                    name: spec_field_string(fs, "name"@)->Some_0,
                    link: spec_field_string(fs, "link"@)->Some_0,
                    abbreviation: spec_field_string(fs, "abbreviation"@)->Some_0,
                    short_name: spec_field_string(fs, "shortName"@)->Some_0,
                    active: spec_field_bool(fs, "active"@)->Some_0,
                },
            )
        } else {
            None
        },
        _ => None,
    }
}

/// Decodes one conference.
pub fn conference_of_json(v: &JsonValue) -> (r: Option<Conference>)
    ensures
        (match r {
            Some(c) => spec_conference_of(v.model()) == Some(c@),
            None => spec_conference_of(v.model()) is None,
        }),
{
    let fs = match v {
        JsonValue::Obj(fs) => fs,
        _ => {
            return None;
        },
    };
    proof {
        lemma_obj_model(*fs);
    }
    let id = match field_i64(fs, "id") {
        Some(x) => x,
        None => {
            return None;
        },
    };
    let name = match field_string(fs, "name") {
        Some(x) => x,
        None => {
            return None;
        },
    };
    let link = match field_string(fs, "link") {
        Some(x) => x,
        None => {
            return None;
        },
    };
    let abbreviation = match field_string(fs, "abbreviation") {
        Some(x) => x,
        None => {
            return None;
        },
    };
    let short_name = match field_string(fs, "shortName") {
        Some(x) => x,
        None => {
            return None;
        },
    };
    let active = match field_bool(fs, "active") {
        Some(x) => x,
        None => {
            return None;
        },
    };
    Some(Conference { id, name, link, abbreviation, short_name, active })
}

/// The conferences denoted by a sequence of JSON documents.
pub open spec fn spec_conferences_of(js: Seq<Json>) -> Option<Seq<ConferenceModel>>
    decreases js.len(),
{
    if js.len() == 0 {
        Some(Seq::empty())
    } else {
        match spec_conferences_of(js.drop_last()) {
            None => None,
            Some(rest) => match spec_conference_of(js.last()) {
                None => None,
                Some(c) => Some(rest.push(c)),
            },
        }
    }
}

proof fn lemma_conferences_prefix_none(js: Seq<Json>, k: int)
    requires
        0 <= k <= js.len(),
        spec_conferences_of(js.take(k)) is None,
    ensures
        spec_conferences_of(js) is None,
    decreases js.len() - k,
{
    if k < js.len() {
        assert(js.take(k + 1).drop_last() =~= js.take(k));
        lemma_conferences_prefix_none(js, k + 1);
    } else {
        assert(js.take(k) =~= js);
    }
}

/// Decodes a sequence of conferences.
pub fn conferences_of_json(vs: &Vec<JsonValue>) -> (r: Option<Vec<Conference>>)
    ensures
        (match r {
            Some(cs) => spec_conferences_of(seq_model(vs@)) == Some(seq_view(cs@)),
            None => spec_conferences_of(seq_model(vs@)) is None,
        }),
{
    let ghost js = seq_model(vs@);
    let mut out: Vec<Conference> = Vec::new();
    proof {
        assert(js.take(0) =~= Seq::empty());
        assert(seq_view(out@) =~= Seq::empty());
    }
    let mut k: usize = 0;
    while k < vs.len()
        invariant
            k <= vs@.len(),
            js == seq_model(vs@),
            js.len() == vs@.len(),
            spec_conferences_of(js.take(k as int)) == Some(seq_view(out@)),
        decreases vs@.len() - k,
    {
        proof {
            assert(js.take(k + 1).drop_last() =~= js.take(k as int));
            assert(js.take(k + 1).last() == js[k as int]);
        }
        match conference_of_json(&vs[k]) {
            None => {
                proof {
                    lemma_conferences_prefix_none(js, k + 1);
                }
                return None;
            },
            Some(c) => {
                let ghost old_out = out@;
                out.push(c);
                proof {
                    assert(seq_view(out@) =~= seq_view(old_out).push(c@));
                }
                k = k + 1;
            },
        }
    }
    proof {
        assert(js.take(k as int) =~= js);
    }
    Some(out)
}

/// The envelope denoted by a JSON document.
pub open spec fn spec_conferences_response_of(j: Json) -> Option<ConferencesResponseModel> {
    match j {
        Json::Obj(fs) => if spec_field_string(fs, "copyright"@) is Some {
            match spec_obj_get(fs, "conferences"@) {
                Some(Json::Arr(items)) => match spec_conferences_of(items) {
                    None => None,
                    Some(conferences) => Some(
                        ConferencesResponseModel {
                            copyright: spec_field_string(fs, "copyright"@)->Some_0,
                            conferences,
                        },
                    ),
                },
                _ => None,
            }
        } else {
            None
        },
        _ => None,
    }
}

/// Decodes the conferences response envelope.
pub fn conferences_response_of_json(v: &JsonValue) -> (r: Option<ConferencesResponse>)
    ensures
        (match r {
            Some(resp) => spec_conferences_response_of(v.model()) == Some(resp@),
            None => spec_conferences_response_of(v.model()) is None,
        }),
{
    let fs = match v {
        JsonValue::Obj(fs) => fs,
        _ => {
            return None;
        },
    };
    proof {
        lemma_obj_model(*fs);
    }
    let copyright = match field_string(fs, "copyright") {
        Some(x) => x,
        None => {
            return None;
        },
    };
    let items = match obj_get(fs, "conferences") {
        Some(JsonValue::Arr(items)) => items,
        _ => {
            return None;
        },
    };
    proof {
        lemma_arr_model(*items);
    }
    let conferences = match conferences_of_json(items) {
        Some(cs) => cs,
        None => {
            return None;
        },
    };
    Some(ConferencesResponse { copyright, conferences })
}

/// The envelope owed for an outcome of the conferences endpoint.
pub open spec fn spec_conferences_send(o: OutcomeModel) -> Result<ConferencesResponseModel, u16> {
    match spec_fetch_json(o) {
        Err(e) => Err(e),
        Ok(j) => match spec_conferences_response_of(j) {
            None => Err(STATUS_BAD_REQUEST),
            Some(resp) => Ok(resp),
        },
    }
}

/// The URL the conferences request resolves to, given the optional
/// conference id.
pub open spec fn spec_conferences_url(id: Option<i32>) -> Seq<char> {
    "https://statsapi.web.nhl.com/api/v1/conferences/"@ + (match id {
        Some(i) => spec_dec_int(i as int),
        None => Seq::empty(),
    })
}

impl ConferencesClient {
    /// Creates a sub-client scoped to no particular conference.
    pub fn new() -> (r: ConferencesClient)
        ensures
            r.id is None,
    {
        ConferencesClient { id: None }
    }

    /// Scope the next request to all conferences.
    pub fn all(&mut self)
        ensures
            final(self).id is None,
    {
        self.id = None;
    }

    /// Scope the next request to one conference by its `id`.
    pub fn get_by_id(&mut self, id: i32)
        ensures
            final(self).id == Some(id),
    {
        self.id = Some(id);
    }

    /// The URL the next request goes to.
    pub fn url(&self) -> (r: String)
        ensures
            r@ == spec_conferences_url(self.id),
    {
        let mut u = String::from_str("https://statsapi.web.nhl.com/api/v1/conferences/");
        match self.id {
            Some(i) => {
                let d = crate::text::dec_i32(i);
                u.append(d.as_str());
            },
            None => {
                proof {
                    assert(u@ =~= spec_conferences_url(self.id));
                }
            },
        }
        u
    }

    /// Decode what the conferences endpoint's GET came back with.
    ///
    /// # Errors
    /// If the upstream API answers with an error, then the corresponding
    /// HTTP error code is returned.
    pub fn send(&self, outcome: HttpOutcome) -> (r: Result<ConferencesResponse, u16>)
        ensures
            (match r {
                Ok(resp) => spec_conferences_send(outcome.model()) == Ok::<_, u16>(resp@),
                Err(e) => spec_conferences_send(outcome.model()) == Err::<
                    ConferencesResponseModel,
                    _,
                >(e),
            }),
    {
        let j = match fetch_json(outcome) {
            Ok(j) => j,
            Err(e) => {
                return Err(e);
            },
        };
        match conferences_response_of_json(&j) {
            Some(resp) => Ok(resp),
            None => Err(STATUS_BAD_REQUEST),
        }
    }
}

/// Law: the accessor surfaces every transport or decode failure as the
/// pathway's error code — an upstream error status as itself, and a body
/// that does not decode into the expected shape as the bad-request code.
pub proof fn lemma_conferences_send_error_mapping(o: OutcomeModel)
    ensures
        spec_fetch_json(o) matches Err(e) ==> spec_conferences_send(o) == Err::<ConferencesResponseModel, u16>(e),
        (spec_fetch_json(o) matches Ok(j) && spec_conferences_response_of(j) is None) ==> spec_conferences_send(o) == Err::<ConferencesResponseModel, u16>(
            STATUS_BAD_REQUEST,
        ),
{
}

} // verus!
