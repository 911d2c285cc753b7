//! The franchise resource: team franchises and the lookups over a
//! fetched collection.

use vstd::prelude::*;
use crate::client::{Client, spec_resource_url};
use crate::http::{HttpOutcome, OutcomeModel, spec_fetch_json, fetch_json};
use crate::json::{
    Json, JsonValue, lemma_arr_model, lemma_obj_model, seq_model, spec_field_i64,
    spec_field_string, spec_obj_get, field_i64, field_string, obj_get,
};
use crate::scan::{find_first, lemma_find_first_skip_found, lemma_find_first_skip_step};
use crate::text::{to_upper, upper_of};
use crate::{STATUS_BAD_REQUEST, opt_view, seq_view};

verus! {

/// One franchise as the upstream API describes it.
#[derive(Debug, Clone, PartialEq, Eq)]
pub struct Franchise {
    pub id: i64,
    pub full_name: String,
    pub team_common_name: String,
    pub team_place_name: String,
}

/// The mathematical model of a [`Franchise`].
pub struct FranchiseModel {
    pub id: int,
    pub full_name: Seq<char>,
    pub team_common_name: Seq<char>,
    pub team_place_name: Seq<char>,
}

impl View for Franchise {
    type V = FranchiseModel;

    open spec fn view(&self) -> FranchiseModel {
        FranchiseModel {
            id: self.id as int,
            full_name: self.full_name@,
            team_common_name: self.team_common_name@,
            team_place_name: self.team_place_name@,
        }
    }
}

/// The response envelope of the franchise resource.
#[derive(Debug, Clone, PartialEq, Eq)]
pub struct FranchiseResponse {
    pub data: Vec<Franchise>,
    pub total: i64,
}

/// The mathematical model of a [`FranchiseResponse`].
pub struct FranchiseResponseModel {
    pub data: Seq<FranchiseModel>,
    pub total: int,
}

impl View for FranchiseResponse {
    type V = FranchiseResponseModel;

    open spec fn view(&self) -> FranchiseResponseModel {
        FranchiseResponseModel { data: seq_view(self.data@), total: self.total as int }
    }
}

/// The franchise denoted by one JSON document.
pub open spec fn spec_franchise_of(j: Json) -> Option<FranchiseModel> {
    match j {
        Json::Obj(fs) => if spec_field_i64(fs, "id"@) is Some && spec_field_string(
            fs,
            "fullName"@,
        ) is Some && spec_field_string(fs, "teamCommonName"@) is Some && spec_field_string(
            fs,
            "teamPlaceName"@,
        ) is Some {
            Some(
                FranchiseModel {
                    id: spec_field_i64(fs, "id"@)->Some_0,
                    full_name: spec_field_string(fs, "fullName"@)->Some_0,
                    team_common_name: spec_field_string(fs, "teamCommonName"@)->Some_0,
                    team_place_name: spec_field_string(fs, "teamPlaceName"@)->Some_0,
                },
            )
        } else {
            None
        },
        _ => None,
    }
}

/// Decodes one franchise.
pub fn franchise_of_json(v: &JsonValue) -> (r: Option<Franchise>)
    ensures
        (match r {
            Some(f) => spec_franchise_of(v.model()) == Some(f@),
            None => spec_franchise_of(v.model()) is None,
        }),
{
    let fs = match v {
        JsonValue::Obj(fs) => fs,
        _ => {
            return None;
        },
    };
    proof {
        lemma_obj_model(*fs);
    }
    let id = match field_i64(fs, "id") {
        Some(x) => x,
        None => {
            return None;
        },
    };
    let full_name = match field_string(fs, "fullName") {
        Some(x) => x,
        None => {
            return None;
        },
    };
    let team_common_name = match field_string(fs, "teamCommonName") {
        Some(x) => x,
        None => {
            return None;
        },
    };
    let team_place_name = match field_string(fs, "teamPlaceName") {
        Some(x) => x,
        None => {
            return None;
        },
    };
    Some(Franchise { id, full_name, team_common_name, team_place_name })
}

/// The franchises denoted by a sequence of JSON documents.
pub open spec fn spec_franchises_of(js: Seq<Json>) -> Option<Seq<FranchiseModel>>
    decreases js.len(),
{
    if js.len() == 0 {
        Some(Seq::empty())
    } else {
        match spec_franchises_of(js.drop_last()) {
            None => None,
            Some(rest) => match spec_franchise_of(js.last()) {
                None => None,
                Some(f) => Some(rest.push(f)),
            },
        }
    }
}

proof fn lemma_franchises_prefix_none(js: Seq<Json>, k: int)
    requires
        0 <= k <= js.len(),
        spec_franchises_of(js.take(k)) is None,
    ensures
        spec_franchises_of(js) is None,
    decreases js.len() - k,
{
    if k < js.len() {
        assert(js.take(k + 1).drop_last() =~= js.take(k));
        lemma_franchises_prefix_none(js, k + 1);
    } else {
        assert(js.take(k) =~= js);
    }
}

/// Decodes a sequence of franchises.
pub fn franchises_of_json(vs: &Vec<JsonValue>) -> (r: Option<Vec<Franchise>>)
    ensures
        (match r {
            Some(fsq) => spec_franchises_of(seq_model(vs@)) == Some(seq_view(fsq@)),
            None => spec_franchises_of(seq_model(vs@)) is None,
        }),
{
    let ghost js = seq_model(vs@);
    let mut out: Vec<Franchise> = Vec::new();
    proof {
        assert(js.take(0) =~= Seq::empty());
        assert(seq_view(out@) =~= Seq::empty());
    }
    let mut k: usize = 0;
    while k < vs.len()
        invariant
            k <= vs@.len(),
            js == seq_model(vs@),
            js.len() == vs@.len(),
            spec_franchises_of(js.take(k as int)) == Some(seq_view(out@)),
        decreases vs@.len() - k,
    {
        proof {
            assert(js.take(k + 1).drop_last() =~= js.take(k as int));
            assert(js.take(k + 1).last() == js[k as int]);
        }
        match franchise_of_json(&vs[k]) {
            None => {
                proof {
                    lemma_franchises_prefix_none(js, k + 1);
                }
                return None;
            },
            Some(f) => {
                let ghost old_out = out@;
                out.push(f);
                proof {
                    assert(seq_view(out@) =~= seq_view(old_out).push(f@));
                }
                k = k + 1;
            },
        }
    }
    proof {
        assert(js.take(k as int) =~= js);
    }
    Some(out)
}

/// The envelope denoted by a JSON document.
pub open spec fn spec_franchise_response_of(j: Json) -> Option<FranchiseResponseModel> {
    match j {
        Json::Obj(fs) => match spec_obj_get(fs, "data"@) {
            Some(Json::Arr(items)) => match spec_franchises_of(items) {
                None => None,
                Some(data) => match spec_field_i64(fs, "total"@) {
                    None => None,
                    Some(total) => Some(FranchiseResponseModel { data, total }),
                },
            },
            _ => None,
        },
        _ => None,
    }
}

/// Decodes the franchise response envelope.
pub fn franchise_response_of_json(v: &JsonValue) -> (r: Option<FranchiseResponse>)
    ensures
        (match r {
            Some(resp) => spec_franchise_response_of(v.model()) == Some(resp@),
            None => spec_franchise_response_of(v.model()) is None,
        }),
{
    let fs = match v {
        JsonValue::Obj(fs) => fs,
        _ => {
            return None;
        },
    };
    proof {
        lemma_obj_model(*fs);
    }
    let items = match obj_get(fs, "data") {
        Some(JsonValue::Arr(items)) => items,
        _ => {
            return None;
        },
    };
    proof {
        lemma_arr_model(*items);
    }
    let data = match franchises_of_json(items) {
        Some(d) => d,
        None => {
            return None;
        },
    };
    let total = match field_i64(fs, "total") {
        Some(t) => t,
        None => {
            return None;
        },
    };
    Some(FranchiseResponse { data, total })
}

/// The collection owed for an outcome of the franchise endpoint.
pub open spec fn spec_get_franchises(o: OutcomeModel) -> Result<Seq<FranchiseModel>, u16> {
    match spec_fetch_json(o) {
        Err(e) => Err(e),
        Ok(j) => match spec_franchise_response_of(j) {
            None => Err(STATUS_BAD_REQUEST),
            Some(resp) => Ok(resp.data),
        },
    }
}

/// Matches a franchise by its identifier.
pub open spec fn franchise_id_pred(id: int) -> spec_fn(FranchiseModel) -> bool {
    |f: FranchiseModel| f.id == id
}

/// Matches a franchise whose full name uppercases to `key`.
pub open spec fn franchise_full_name_pred(key: Seq<char>) -> spec_fn(FranchiseModel) -> bool {
    |f: FranchiseModel| upper_of(f.full_name) == key
}

/// Matches a franchise whose team common name uppercases to `key`.
pub open spec fn franchise_common_name_pred(key: Seq<char>) -> spec_fn(FranchiseModel) -> bool {
    |f: FranchiseModel| upper_of(f.team_common_name) == key
}

/// Matches a franchise whose team place name uppercases to `key`.
pub open spec fn franchise_place_name_pred(key: Seq<char>) -> spec_fn(FranchiseModel) -> bool {
    |f: FranchiseModel| upper_of(f.team_place_name) == key
}

impl Client {
    /// The URL the franchise collection is fetched from.
    pub fn franchises_url(&self) -> (r: String)
        ensures
            r@ == spec_resource_url(self.stats_base_url@, self.language@, "franchise"@),
    {
        self.resource_url("franchise")
    }

    /// Get a list of franchises, from what the franchise endpoint's GET
    /// came back with.
    ///
    /// # Errors
    /// If the upstream API answers with an error, then the corresponding
    /// HTTP error code is returned.
    pub fn get_franchises(&self, outcome: HttpOutcome) -> (r: Result<Vec<Franchise>, u16>)
        ensures
            (match r {
                Ok(fsq) => spec_get_franchises(outcome.model()) == Ok::<_, u16>(seq_view(fsq@)),
                Err(e) => spec_get_franchises(outcome.model()) == Err::<Seq<FranchiseModel>, _>(e),
            }),
    {
        let j = match fetch_json(outcome) {
            Ok(j) => j,
            Err(e) => {
                return Err(e);
            },
        };
        match franchise_response_of_json(&j) {
            Some(resp) => Ok(resp.data),
            None => Err(STATUS_BAD_REQUEST),
        }
    }

    /// Get a franchise by an `id`.
    ///
    /// # Errors
    /// If the upstream API answers with an error, then the corresponding
    /// HTTP error code is returned.
    pub fn get_franchise_by_id(&self, outcome: HttpOutcome, id: i64) -> (r: Result<
        Option<Franchise>,
        u16,
    >)
        ensures
            (match r {
                Ok(f) => {
                    &&& spec_get_franchises(outcome.model()) matches Ok(fsq)
                    &&& opt_view(f) == find_first(fsq, franchise_id_pred(id as int))
                },
                Err(e) => spec_get_franchises(outcome.model()) == Err::<Seq<FranchiseModel>, _>(e),
            }),
    {
        let mut list = match self.get_franchises(outcome) {
            Ok(l) => l,
            Err(e) => {
                return Err(e);
            },
        };
        let ghost fsq = seq_view(list@);
        let ghost pred = franchise_id_pred(id as int);
        proof {
            assert(fsq.skip(0) =~= fsq);
        }
        let mut k: usize = 0;
        while k < list.len()
            invariant
                k <= list@.len(),
                fsq == seq_view(list@),
                fsq.len() == list@.len(),
                spec_get_franchises(outcome.model()) == Ok::<_, u16>(fsq),
                pred == franchise_id_pred(id as int),
                find_first(fsq, pred) == find_first(fsq.skip(k as int), pred),
            decreases list@.len() - k,
        {
            if list[k].id == id {
                proof {
                    lemma_find_first_skip_found(fsq, pred, k as int);
                }
                let f = list.remove(k);
                return Ok(Some(f));
            }
            proof {
                lemma_find_first_skip_step(fsq, pred, k as int);
            }
            k = k + 1;
        }
        proof {
            assert(fsq.skip(k as int) =~= Seq::empty());
        }
        Ok(None)
    }

    /// Get a franchise by a `full_name`, compared case-insensitively.
    ///
    /// # Errors
    /// If the upstream API answers with an error, then the corresponding
    /// HTTP error code is returned.
    pub fn get_franchise_by_full_name(&self, outcome: HttpOutcome, full_name: &str) -> (r: Result<
        Option<Franchise>,
        u16,
    >)
        ensures
            (match r {
                Ok(f) => {
                    &&& spec_get_franchises(outcome.model()) matches Ok(fsq)
                    &&& opt_view(f) == find_first(fsq, franchise_full_name_pred(upper_of(full_name@)))
                },
                Err(e) => spec_get_franchises(outcome.model()) == Err::<Seq<FranchiseModel>, _>(e),
            }),
    {
        let mut list = match self.get_franchises(outcome) {
            Ok(l) => l,
            Err(e) => {
                return Err(e);
            },
        };
        let key = to_upper(full_name);
        let ghost fsq = seq_view(list@);
        let ghost pred = franchise_full_name_pred(upper_of(full_name@));
        proof {
            assert(fsq.skip(0) =~= fsq);
        }
        let mut k: usize = 0;
        while k < list.len()
            invariant
                k <= list@.len(),
                fsq == seq_view(list@),
                fsq.len() == list@.len(),
                spec_get_franchises(outcome.model()) == Ok::<_, u16>(fsq),
                key@ == upper_of(full_name@),
                pred == franchise_full_name_pred(upper_of(full_name@)),
                find_first(fsq, pred) == find_first(fsq.skip(k as int), pred),
            decreases list@.len() - k,
        {
            let cand = to_upper(list[k].full_name.as_str());
            if cand == key {
                proof {
                    lemma_find_first_skip_found(fsq, pred, k as int);
                }
                let f = list.remove(k);
                return Ok(Some(f));
            }
            proof {
                lemma_find_first_skip_step(fsq, pred, k as int);
            }
            k = k + 1;
        }
        proof {
            assert(fsq.skip(k as int) =~= Seq::empty());
        }
        Ok(None)
    }

    /// Get a franchise by a `team_common_name`, compared
    /// case-insensitively.
    ///
    /// # Errors
    /// If the upstream API answers with an error, then the corresponding
    /// HTTP error code is returned.
    pub fn get_franchise_by_team_common_name(
        &self,
        outcome: HttpOutcome,
        team_common_name: &str,
    ) -> (r: Result<Option<Franchise>, u16>)
        ensures
            (match r {
                Ok(f) => {
                    &&& spec_get_franchises(outcome.model()) matches Ok(fsq)
                    &&& opt_view(f) == find_first(
                        fsq,
                        franchise_common_name_pred(upper_of(team_common_name@)),
                    )
                },
                Err(e) => spec_get_franchises(outcome.model()) == Err::<Seq<FranchiseModel>, _>(e),
            }),
    {
        let mut list = match self.get_franchises(outcome) {
            Ok(l) => l,
            Err(e) => {
                return Err(e);
            },
        };
        let key = to_upper(team_common_name);
        let ghost fsq = seq_view(list@);
        let ghost pred = franchise_common_name_pred(upper_of(team_common_name@));
        proof {
            assert(fsq.skip(0) =~= fsq);
        }
        let mut k: usize = 0;
        while k < list.len()
            invariant
                k <= list@.len(),
                fsq == seq_view(list@),
                fsq.len() == list@.len(),
                spec_get_franchises(outcome.model()) == Ok::<_, u16>(fsq),
                key@ == upper_of(team_common_name@),
                pred == franchise_common_name_pred(upper_of(team_common_name@)),
                find_first(fsq, pred) == find_first(fsq.skip(k as int), pred),
            decreases list@.len() - k,
        {
            let cand = to_upper(list[k].team_common_name.as_str());
            if cand == key {
                proof {
                    lemma_find_first_skip_found(fsq, pred, k as int);
                }
                let f = list.remove(k);
                return Ok(Some(f));
            }
            proof {
                lemma_find_first_skip_step(fsq, pred, k as int);
            }
            k = k + 1;
        }
        proof {
            assert(fsq.skip(k as int) =~= Seq::empty());
        }
        Ok(None)
    }

    /// Get a franchise by a `team_place_name`, compared
    /// case-insensitively.
    ///
    /// # Errors
    /// If the upstream API answers with an error, then the corresponding
    /// HTTP error code is returned.
    pub fn get_franchise_by_team_place_name(
        &self,
        outcome: HttpOutcome,
        team_place_name: &str,
    ) -> (r: Result<Option<Franchise>, u16>)
        ensures
            (match r {
                Ok(f) => {
                    &&& spec_get_franchises(outcome.model()) matches Ok(fsq)
                    &&& opt_view(f) == find_first(
                        fsq,
                        franchise_place_name_pred(upper_of(team_place_name@)),
                    )
                },
                Err(e) => spec_get_franchises(outcome.model()) == Err::<Seq<FranchiseModel>, _>(e),
            }),
    {
        let mut list = match self.get_franchises(outcome) {
            Ok(l) => l,
            Err(e) => {
                return Err(e);
            },
        };
        let key = to_upper(team_place_name);
        let ghost fsq = seq_view(list@);
        let ghost pred = franchise_place_name_pred(upper_of(team_place_name@));
        proof {
            assert(fsq.skip(0) =~= fsq);
        }
        let mut k: usize = 0;
        while k < list.len()
            invariant
                k <= list@.len(),
                fsq == seq_view(list@),
                fsq.len() == list@.len(),
                spec_get_franchises(outcome.model()) == Ok::<_, u16>(fsq),
                key@ == upper_of(team_place_name@),
                pred == franchise_place_name_pred(upper_of(team_place_name@)),
                find_first(fsq, pred) == find_first(fsq.skip(k as int), pred),
            decreases list@.len() - k,
        {
            let cand = to_upper(list[k].team_place_name.as_str());
            if cand == key {
                proof {
                    lemma_find_first_skip_found(fsq, pred, k as int);
                }
                let f = list.remove(k);
                return Ok(Some(f));
            }
            proof {
                lemma_find_first_skip_step(fsq, pred, k as int);
            }
            k = k + 1;
        }
        proof {
            assert(fsq.skip(k as int) =~= Seq::empty());
        }
        Ok(None)
    }
}

/// Law: the accessor surfaces every transport or decode failure as the
/// pathway's error code — an upstream error status as itself, and a body
/// that does not decode into the expected shape as the bad-request code.
pub proof fn lemma_franchises_error_mapping(o: OutcomeModel)
    ensures
        spec_fetch_json(o) matches Err(e) ==> spec_get_franchises(o) == Err::<Seq<FranchiseModel>, u16>(e),
        (spec_fetch_json(o) matches Ok(j) && spec_franchise_response_of(j) is None) ==> spec_get_franchises(o) == Err::<Seq<FranchiseModel>, u16>(
            STATUS_BAD_REQUEST,
        ),
{
}

} // verus!
