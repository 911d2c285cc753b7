//! The season component resource: which components (game types) each
//! season carries.

use vstd::prelude::*;
use crate::client::{Client, spec_resource_url};
use crate::http::{HttpOutcome, OutcomeModel, spec_fetch_json, fetch_json};
use crate::json::{
    Json, JsonValue, lemma_arr_model, lemma_obj_model, seq_model, spec_field_i64,
    spec_field_string, spec_obj_get, field_i64, field_string, obj_get,
};
use crate::{STATUS_BAD_REQUEST, seq_view};

verus! {

/// One season component as the upstream API describes it.
#[derive(Debug, Clone, PartialEq, Eq)]
pub struct ComponentSeason {
    pub id: String,
    pub component: String,
    pub game_type_id: i64,
    pub season_id: i64,
}

/// The mathematical model of a [`ComponentSeason`].
pub struct ComponentSeasonModel {
    pub id: Seq<char>,
    pub component: Seq<char>,
    pub game_type_id: int,
    pub season_id: int,
}

impl View for ComponentSeason {
    type V = ComponentSeasonModel;

    open spec fn view(&self) -> ComponentSeasonModel {
        ComponentSeasonModel {
            id: self.id@,
            component: self.component@,
            game_type_id: self.game_type_id as int,
            season_id: self.season_id as int,
        }
    }
}

/// The response envelope of the season component resource.
#[derive(Debug, Clone, PartialEq, Eq)]
pub struct ComponentSeasonResponse {
    pub data: Vec<ComponentSeason>,
    pub total: i64,
}

/// The mathematical model of a [`ComponentSeasonResponse`].
pub struct ComponentSeasonResponseModel {
    pub data: Seq<ComponentSeasonModel>,
    pub total: int,
}

impl View for ComponentSeasonResponse {
    type V = ComponentSeasonResponseModel;

    open spec fn view(&self) -> ComponentSeasonResponseModel {
        ComponentSeasonResponseModel { data: seq_view(self.data@), total: self.total as int }
    }
}

/// The season component denoted by one JSON document.
pub open spec fn spec_component_season_of(j: Json) -> Option<ComponentSeasonModel> {
    match j {
        Json::Obj(fs) => if spec_field_string(fs, "id"@) is Some && spec_field_string(
            fs,
            "component"@,
        ) is Some && spec_field_i64(fs, "gameTypeId"@) is Some && spec_field_i64(
            fs,
            "seasonId"@,
        ) is Some {
            Some(
                ComponentSeasonModel {
                    id: spec_field_string(fs, "id"@)->Some_0,
                    component: spec_field_string(fs, "component"@)->Some_0,
                    game_type_id: spec_field_i64(fs, "gameTypeId"@)->Some_0,
                    season_id: spec_field_i64(fs, "seasonId"@)->Some_0,
                },
            )
        } else {
            None
        },
        _ => None,
    }
}

/// Decodes one season component.
pub fn component_season_of_json(v: &JsonValue) -> (r: Option<ComponentSeason>)
    ensures
        (match r {
            Some(c) => spec_component_season_of(v.model()) == Some(c@),
            None => spec_component_season_of(v.model()) is None,
        }),
{
    let fs = match v {
        JsonValue::Obj(fs) => fs,
        _ => {
            return None;
        },
    };
    proof {
        lemma_obj_model(*fs);
    }
    let id = match field_string(fs, "id") {
        Some(x) => x,
        None => {
            return None;
        },
    };
    let component = match field_string(fs, "component") {
        Some(x) => x,
        None => {
            return None;
        },
    };
    let game_type_id = match field_i64(fs, "gameTypeId") {
        Some(x) => x,
        None => {
            return None;
        },
    };
    let season_id = match field_i64(fs, "seasonId") {
        Some(x) => x,
        None => {
            return None;
        },
    };
    Some(ComponentSeason { id, component, game_type_id, season_id })
}

/// The season components denoted by a sequence of JSON documents.
pub open spec fn spec_component_seasons_of(js: Seq<Json>) -> Option<Seq<ComponentSeasonModel>>
    decreases js.len(),
{
    if js.len() == 0 {
        Some(Seq::empty())
    } else {
        match spec_component_seasons_of(js.drop_last()) {
            None => None,
            Some(rest) => match spec_component_season_of(js.last()) {
                None => None,
                Some(c) => Some(rest.push(c)),
            },
        }
    }
}

proof fn lemma_component_seasons_prefix_none(js: Seq<Json>, k: int)
    requires
        0 <= k <= js.len(),
        spec_component_seasons_of(js.take(k)) is None,
    ensures
        spec_component_seasons_of(js) is None,
    decreases js.len() - k,
{
    if k < js.len() {
        assert(js.take(k + 1).drop_last() =~= js.take(k));
        lemma_component_seasons_prefix_none(js, k + 1);
    } else {
        assert(js.take(k) =~= js);
    }
}

/// Decodes a sequence of season components.
pub fn component_seasons_of_json(vs: &Vec<JsonValue>) -> (r: Option<Vec<ComponentSeason>>)
    ensures
        (match r {
            Some(cs) => spec_component_seasons_of(seq_model(vs@)) == Some(seq_view(cs@)),
            None => spec_component_seasons_of(seq_model(vs@)) is None,
        }),
{
    let ghost js = seq_model(vs@);
    let mut out: Vec<ComponentSeason> = Vec::new();
    proof {
        assert(js.take(0) =~= Seq::empty());
        assert(seq_view(out@) =~= Seq::empty());
    }
    let mut k: usize = 0;
    while k < vs.len()
        invariant
            k <= vs@.len(),
            js == seq_model(vs@),
            js.len() == vs@.len(),
            spec_component_seasons_of(js.take(k as int)) == Some(seq_view(out@)),
        decreases vs@.len() - k,
    {
        proof {
            assert(js.take(k + 1).drop_last() =~= js.take(k as int));
            assert(js.take(k + 1).last() == js[k as int]);
        }
        match component_season_of_json(&vs[k]) {
            None => {
                proof {
                    lemma_component_seasons_prefix_none(js, k + 1);
                }
                return None;
            },
            Some(c) => {
                let ghost old_out = out@;
                out.push(c);
                proof {
                    assert(seq_view(out@) =~= seq_view(old_out).push(c@));
                }
                k = k + 1;
            },
        }
    }
    proof {
        assert(js.take(k as int) =~= js);
    }
    Some(out)
}

/// The envelope denoted by a JSON document.
pub open spec fn spec_component_season_response_of(j: Json) -> Option<
    ComponentSeasonResponseModel,
> {
    match j {
        Json::Obj(fs) => match spec_obj_get(fs, "data"@) {
            Some(Json::Arr(items)) => match spec_component_seasons_of(items) {
                None => None,
                Some(data) => match spec_field_i64(fs, "total"@) {
                    None => None,
                    Some(total) => Some(ComponentSeasonResponseModel { data, total }),
                },
            },
            _ => None,
        },
        _ => None,
    }
}

/// Decodes the season component response envelope.
pub fn component_season_response_of_json(v: &JsonValue) -> (r: Option<ComponentSeasonResponse>)
    ensures
        (match r {
            Some(resp) => spec_component_season_response_of(v.model()) == Some(resp@),
            None => spec_component_season_response_of(v.model()) is None,
        }),
{
    let fs = match v {
        JsonValue::Obj(fs) => fs,
        _ => {
            return None;
        },
    };
    proof {
        lemma_obj_model(*fs);
    }
    let items = match obj_get(fs, "data") {
        Some(JsonValue::Arr(items)) => items,
        _ => {
            return None;
        },
    };
    proof {
        lemma_arr_model(*items);
    }
    let data = match component_seasons_of_json(items) {
        Some(d) => d,
        None => {
            return None;
        },
    };
    let total = match field_i64(fs, "total") {
        Some(t) => t,
        None => {
            return None;
        },
    };
    Some(ComponentSeasonResponse { data, total })
}

/// The collection owed for an outcome of the season component endpoint.
pub open spec fn spec_get_component_season(o: OutcomeModel) -> Result<
    Seq<ComponentSeasonModel>,
    u16,
> {
    match spec_fetch_json(o) {
        Err(e) => Err(e),
        Ok(j) => match spec_component_season_response_of(j) {
            None => Err(STATUS_BAD_REQUEST),
            Some(resp) => Ok(resp.data),
        },
    }
}

impl Client {
    /// The URL the season component collection is fetched from.
    pub fn component_season_url(&self) -> (r: String)
        ensures
            r@ == spec_resource_url(self.stats_base_url@, self.language@, "componentSeason"@),
    {
        self.resource_url("componentSeason")
    }

    /// Get component season information, from what the season component
    /// endpoint's GET came back with.
    ///
    /// # Errors
    /// If the upstream API answers with an error, then the corresponding
    /// HTTP error code is returned.
    pub fn get_component_season(&self, outcome: HttpOutcome) -> (r: Result<
        Vec<ComponentSeason>,
        u16,
    >)
        ensures
            (match r {
                Ok(cs) => spec_get_component_season(outcome.model()) == Ok::<_, u16>(
                    seq_view(cs@),
                ),
                Err(e) => spec_get_component_season(outcome.model()) == Err::<
                    Seq<ComponentSeasonModel>,
                    _,
                >(e),
            }),
    {
        let j = match fetch_json(outcome) {
            Ok(j) => j,
            Err(e) => {
                return Err(e);
            },
        };
        match component_season_response_of_json(&j) {
            Some(resp) => Ok(resp.data),
            None => Err(STATUS_BAD_REQUEST),
        }
    }
}

/// Law: the accessor surfaces every transport or decode failure as the
/// pathway's error code — an upstream error status as itself, and a body
/// that does not decode into the expected shape as the bad-request code.
pub proof fn lemma_component_season_error_mapping(o: OutcomeModel)
    ensures
        spec_fetch_json(o) matches Err(e) ==> spec_get_component_season(o) == Err::<Seq<ComponentSeasonModel>, u16>(e),
        (spec_fetch_json(o) matches Ok(j) && spec_component_season_response_of(j) is None) ==> spec_get_component_season(o) == Err::<Seq<ComponentSeasonModel>, u16>(
            STATUS_BAD_REQUEST,
        ),
{
}

} // verus!
