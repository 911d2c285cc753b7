//! The awards resource: a sub-client holding an optional award id, the
//! URL it resolves to, and the decoding of what its GET came back with.

use vstd::prelude::*;
use vstd::string::*;
use crate::http::{HttpOutcome, OutcomeModel, spec_fetch_json, fetch_json};
use crate::json::{
    Json, JsonValue, lemma_arr_model, lemma_obj_model, seq_model, spec_field_opt_string,
    spec_field_string, spec_obj_get, field_opt_string, field_string, obj_get,
};
use crate::text::spec_dec_int;
use crate::{STATUS_BAD_REQUEST, seq_view};

verus! {

/// A sub-client for the awards resource, holding the optional award id
/// the next request is scoped to.
#[derive(Debug, PartialEq, Eq)]
pub struct AwardsClient {
    pub id: Option<i32>,
}

/// One award as the upstream API describes it.
#[derive(Debug, Clone, PartialEq, Eq)]
pub struct Award {
    pub name: String,
    pub short_name: String,
    pub description: String,
    pub recipient_type: String,
    pub history: Option<String>,
    pub image_url: String,
    pub home_page_url: String,
    pub link: String,
}

/// The mathematical model of an [`Award`].
pub struct AwardModel {
    pub name: Seq<char>,
    pub short_name: Seq<char>,
    pub description: Seq<char>,
    pub recipient_type: Seq<char>,
    pub history: Option<Seq<char>>,
    pub image_url: Seq<char>,
    pub home_page_url: Seq<char>,
    pub link: Seq<char>,
}

impl View for Award {
    type V = AwardModel;

    open spec fn view(&self) -> AwardModel {
        AwardModel {
            name: self.name@,
            short_name: self.short_name@,
            description: self.description@,
            recipient_type: self.recipient_type@,
            history: self.history.deep_view(),
            image_url: self.image_url@,
            home_page_url: self.home_page_url@,
            link: self.link@,
        }
    }
}

/// The response envelope of the awards resource.
#[derive(Debug, Clone, PartialEq, Eq)]
pub struct AwardsResponse {
    pub copyright: String,
    pub awards: Vec<Award>,
}

/// The mathematical model of an [`AwardsResponse`].
pub struct AwardsResponseModel {
    pub copyright: Seq<char>,
    pub awards: Seq<AwardModel>,
}

impl View for AwardsResponse {
    type V = AwardsResponseModel;

    open spec fn view(&self) -> AwardsResponseModel {
        AwardsResponseModel { copyright: self.copyright@, awards: seq_view(self.awards@) }
    }
}

/// The award denoted by one JSON document.
pub open spec fn spec_award_of(j: Json) -> Option<AwardModel> {
    match j {
        Json::Obj(fs) => if spec_field_string(fs, "name"@) is Some && spec_field_string(
            fs,
            "shortName"@,
        ) is Some && spec_field_string(fs, "description"@) is Some && spec_field_string(
            fs,
            "recipientType"@,
        ) is Some && spec_field_opt_string(fs, "history"@) is Some && spec_field_string(
            fs,
            "imageUrl"@,
        ) is Some && spec_field_string(fs, "homePageUrl"@) is Some && spec_field_string(
            fs,
            "link"@,
        ) is Some {
            Some(
                AwardModel {
                    name: spec_field_string(fs, "name"@)->Some_0,
                    short_name: spec_field_string(fs, "shortName"@)->Some_0,
                    description: spec_field_string(fs, "description"@)->Some_0,
                    recipient_type: spec_field_string(fs, "recipientType"@)->Some_0,
                    history: spec_field_opt_string(fs, "history"@)->Some_0,
                    image_url: spec_field_string(fs, "imageUrl"@)->Some_0,
                    home_page_url: spec_field_string(fs, "homePageUrl"@)->Some_0,
                    link: spec_field_string(fs, "link"@)->Some_0,
                },
            )
        } else {
            None
        },
        _ => None,
    }
}

/// Decodes one award.
pub fn award_of_json(v: &JsonValue) -> (r: Option<Award>)
    ensures
        (match r {
            Some(a) => spec_award_of(v.model()) == Some(a@),
            None => spec_award_of(v.model()) is None,
        }),
{
    let fs = match v {
        JsonValue::Obj(fs) => fs,
        _ => {
            return None;
        },
    };
    proof {
        lemma_obj_model(*fs);
    }
    let name = match field_string(fs, "name") {
        Some(x) => x,
        None => {
            return None;
        },
    };
    let short_name = match field_string(fs, "shortName") {
        Some(x) => x,
        None => {
            return None;
        },
    };
    let description = match field_string(fs, "description") {
        Some(x) => x,
        None => {
            return None;
        },
    };
    let recipient_type = match field_string(fs, "recipientType") {
        Some(x) => x,
        None => {
            return None;
        },
    };
    let history = match field_opt_string(fs, "history") {
        Some(x) => x,
        None => {
            return None;
        },
    };
    let image_url = match field_string(fs, "imageUrl") {
        Some(x) => x,
        None => {
            return None;
        },
    };
    let home_page_url = match field_string(fs, "homePageUrl") {
        Some(x) => x,
        None => {
            return None;
        },
    };
    let link = match field_string(fs, "link") {
        Some(x) => x,
        None => {
            return None;
        },
    };
    Some(
        Award {
            name,
            short_name,
            description,
            recipient_type,
            history,
            image_url,
            home_page_url,
            link,
        },
    )
}

/// The awards denoted by a sequence of JSON documents.
pub open spec fn spec_awards_of(js: Seq<Json>) -> Option<Seq<AwardModel>>
    decreases js.len(),
{
    if js.len() == 0 {
        Some(Seq::empty())
    } else {
        match spec_awards_of(js.drop_last()) {
            None => None,
            Some(rest) => match spec_award_of(js.last()) {
                None => None,
                Some(a) => Some(rest.push(a)),
            },
        }
    }
}

proof fn lemma_awards_prefix_none(js: Seq<Json>, k: int)
    requires
        0 <= k <= js.len(),
        spec_awards_of(js.take(k)) is None,
    ensures
        spec_awards_of(js) is None,
    decreases js.len() - k,
{
    if k < js.len() {
        assert(js.take(k + 1).drop_last() =~= js.take(k));
        lemma_awards_prefix_none(js, k + 1);
    } else {
        assert(js.take(k) =~= js);
    }
}

/// Decodes a sequence of awards.
pub fn awards_of_json(vs: &Vec<JsonValue>) -> (r: Option<Vec<Award>>)
    ensures
        (match r {
            Some(aws) => spec_awards_of(seq_model(vs@)) == Some(seq_view(aws@)),
            None => spec_awards_of(seq_model(vs@)) is None,
        }),
{
    let ghost js = seq_model(vs@);
    let mut out: Vec<Award> = Vec::new();
    proof {
        assert(js.take(0) =~= Seq::empty());
        assert(seq_view(out@) =~= Seq::empty());
    }
    let mut k: usize = 0;
    while k < vs.len()
        invariant
            k <= vs@.len(),
            js == seq_model(vs@),
            js.len() == vs@.len(),
            spec_awards_of(js.take(k as int)) == Some(seq_view(out@)),
        decreases vs@.len() - k,
    {
        proof {
            assert(js.take(k + 1).drop_last() =~= js.take(k as int));
            assert(js.take(k + 1).last() == js[k as int]);
        }
        match award_of_json(&vs[k]) {
            None => {
                proof {
                    lemma_awards_prefix_none(js, k + 1);
                }
                return None;
            },
            Some(a) => {
                let ghost old_out = out@;
                out.push(a);
                proof {
                    assert(seq_view(out@) =~= seq_view(old_out).push(a@));
                }
                k = k + 1;
            },
        }
    }
    proof {
        assert(js.take(k as int) =~= js);
    }
    Some(out)
}

/// The envelope denoted by a JSON document.
pub open spec fn spec_awards_response_of(j: Json) -> Option<AwardsResponseModel> {
    match j {
        Json::Obj(fs) => if spec_field_string(fs, "copyright"@) is Some {
            match spec_obj_get(fs, "awards"@) {
                Some(Json::Arr(items)) => match spec_awards_of(items) {
                    None => None,
                    Some(awards) => Some(
                        AwardsResponseModel {
                            copyright: spec_field_string(fs, "copyright"@)->Some_0,
                            awards,
                        },
                    ),
                },
                _ => None,
            }
        } else {
            None
        },
        _ => None,
    }
}

/// Decodes the awards response envelope.
pub fn awards_response_of_json(v: &JsonValue) -> (r: Option<AwardsResponse>)
    ensures
        (match r {
            Some(resp) => spec_awards_response_of(v.model()) == Some(resp@),
            None => spec_awards_response_of(v.model()) is None,
        }),
{
    let fs = match v {
        JsonValue::Obj(fs) => fs,
        _ => {
            return None;
        },
    };
    proof {
        lemma_obj_model(*fs);
    }
    let copyright = match field_string(fs, "copyright") {
        Some(x) => x,
        None => {
            return None;
        },
    };
    let items = match obj_get(fs, "awards") {
        Some(JsonValue::Arr(items)) => items,
        _ => {
            return None;
        },
    };
    proof {
        lemma_arr_model(*items);
    }
    let awards = match awards_of_json(items) {
        Some(aws) => aws,
        None => {
            return None;
        },
    };
    Some(AwardsResponse { copyright, awards })
}

/// The envelope owed for an outcome of the awards endpoint.
pub open spec fn spec_awards_send(o: OutcomeModel) -> Result<AwardsResponseModel, u16> {
    match spec_fetch_json(o) {
        Err(e) => Err(e),
        Ok(j) => match spec_awards_response_of(j) {
            None => Err(STATUS_BAD_REQUEST),
            Some(resp) => Ok(resp),
        },
    }
}

/// The URL the awards request resolves to, given the optional award id.
pub open spec fn spec_awards_url(id: Option<i32>) -> Seq<char> {
    "https://statsapi.web.nhl.com/api/v1/awards/"@ + (match id {
        Some(i) => spec_dec_int(i as int),
        None => Seq::empty(),
    })
}

impl AwardsClient {
    /// Creates a sub-client scoped to no particular award.
    pub fn new() -> (r: AwardsClient)
        ensures
            r.id is None,
    {
        AwardsClient { id: None }
    }

    /// Scope the next request to all awards.
    pub fn all(&mut self)
        ensures
            final(self).id is None,
    {
        self.id = None;
    }

    /// Scope the next request to one award by its `id`.
    pub fn get_by_id(&mut self, id: i32)
        ensures
            final(self).id == Some(id),
    {
        self.id = Some(id);
    }

    /// The URL the next request goes to.
    pub fn url(&self) -> (r: String)
        ensures
            r@ == spec_awards_url(self.id),
    {
        let mut u = String::from_str("https://statsapi.web.nhl.com/api/v1/awards/");
        match self.id {
            Some(i) => {
                let d = crate::text::dec_i32(i);
                u.append(d.as_str());
            },
            None => {
                proof {
                    assert(u@ =~= spec_awards_url(self.id));
                }
            },
        }
        u
    }

    /// Decode what the awards endpoint's GET came back with.
    ///
    /// # Errors
    /// If the upstream API answers with an error, then the corresponding
    /// HTTP error code is returned.
    pub fn send(&self, outcome: HttpOutcome) -> (r: Result<AwardsResponse, u16>)
        ensures
            (match r {
                Ok(resp) => spec_awards_send(outcome.model()) == Ok::<_, u16>(resp@),
                Err(e) => spec_awards_send(outcome.model()) == Err::<AwardsResponseModel, _>(e),
            }),
    {
        let j = match fetch_json(outcome) {
            Ok(j) => j,
            Err(e) => {
                return Err(e);
            },
        };
        match awards_response_of_json(&j) {
            Some(resp) => Ok(resp),
            None => Err(STATUS_BAD_REQUEST),
        }
    }
}

/// Law: the accessor surfaces every transport or decode failure as the
/// pathway's error code — an upstream error status as itself, and a body
/// that does not decode into the expected shape as the bad-request code.
pub proof fn lemma_awards_send_error_mapping(o: OutcomeModel)
    ensures
        spec_fetch_json(o) matches Err(e) ==> spec_awards_send(o) == Err::<AwardsResponseModel, u16>(e),
        (spec_fetch_json(o) matches Ok(j) && spec_awards_response_of(j) is None) ==> spec_awards_send(o) == Err::<AwardsResponseModel, u16>(
            STATUS_BAD_REQUEST,
        ),
{
}

} // verus!
