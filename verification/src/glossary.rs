//! The glossary resource: statistics terms with their abbreviations and
//! definitions, and the lookups over a fetched collection.

use vstd::prelude::*;
use crate::client::{Client, spec_resource_url};
use crate::http::{HttpOutcome, OutcomeModel, spec_fetch_json, fetch_json};
use crate::json::{
    Json, JsonValue, lemma_arr_model, lemma_obj_model, seq_model, spec_field_i64,
    spec_field_opt_i64, spec_field_opt_string, spec_field_string, spec_obj_get, field_i64,
    field_opt_i64, field_opt_string, field_string, obj_get, opt_int_view,
};
use crate::scan::{find_first, lemma_find_first_skip_found, lemma_find_first_skip_step};
use crate::text::{to_upper, upper_of};
use crate::{STATUS_BAD_REQUEST, opt_view, seq_view};

verus! {

/// One glossary term as the upstream API describes it.
#[derive(Debug, Clone, PartialEq, Eq)]
pub struct GlossaryItem {
    pub id: i64,
    pub abbreviation: Option<String>,
    pub definition: String,
    pub first_season_for_stat: Option<i64>,
    pub full_name: String,
    pub language_code: String,
    pub last_updated: String,
}

/// The mathematical model of a [`GlossaryItem`].
pub struct GlossaryItemModel {
    pub id: int,
    pub abbreviation: Option<Seq<char>>,
    pub definition: Seq<char>,
    pub first_season_for_stat: Option<int>,
    pub full_name: Seq<char>,
    pub language_code: Seq<char>,
    pub last_updated: Seq<char>,
}

impl View for GlossaryItem {
    type V = GlossaryItemModel;

    open spec fn view(&self) -> GlossaryItemModel {
        GlossaryItemModel {
            id: self.id as int,
            abbreviation: self.abbreviation.deep_view(),
            definition: self.definition@,
            first_season_for_stat: opt_int_view(self.first_season_for_stat),
            full_name: self.full_name@,
            language_code: self.language_code@,
            last_updated: self.last_updated@,
        }
    }
}

/// The response envelope of the glossary resource.
#[derive(Debug, Clone, PartialEq, Eq)]
pub struct GlossaryResponse {
    pub data: Vec<GlossaryItem>,
    pub total: i64,
}

/// The mathematical model of a [`GlossaryResponse`].
pub struct GlossaryResponseModel {
    pub data: Seq<GlossaryItemModel>,
    pub total: int,
}

impl View for GlossaryResponse {
    type V = GlossaryResponseModel;

    open spec fn view(&self) -> GlossaryResponseModel {
        GlossaryResponseModel { data: seq_view(self.data@), total: self.total as int }
    }
}

/// The glossary term denoted by one JSON document.
pub open spec fn spec_glossary_item_of(j: Json) -> Option<GlossaryItemModel> {
    match j {
        Json::Obj(fs) => if spec_field_i64(fs, "id"@) is Some && spec_field_opt_string(
            fs,
            "abbreviation"@,
        ) is Some && spec_field_string(fs, "definition"@) is Some && spec_field_opt_i64(
            fs,
            "firstSeasonForStat"@,
        ) is Some && spec_field_string(fs, "fullName"@) is Some && spec_field_string(
            fs,
            "languageCode"@,
        ) is Some && spec_field_string(fs, "lastUpdated"@) is Some {
            Some(
                GlossaryItemModel {
                    id: spec_field_i64(fs, "id"@)->Some_0,
                    abbreviation: spec_field_opt_string(fs, "abbreviation"@)->Some_0,
                    definition: spec_field_string(fs, "definition"@)->Some_0,
                    first_season_for_stat: spec_field_opt_i64(fs, "firstSeasonForStat"@)->Some_0,
                    full_name: spec_field_string(fs, "fullName"@)->Some_0,
                    language_code: spec_field_string(fs, "languageCode"@)->Some_0,
                    last_updated: spec_field_string(fs, "lastUpdated"@)->Some_0,
                },
            )
        } else {
            None
        },
        _ => None,
    }
}

/// Decodes one glossary term.
pub fn glossary_item_of_json(v: &JsonValue) -> (r: Option<GlossaryItem>)
    ensures
        (match r {
            Some(g) => spec_glossary_item_of(v.model()) == Some(g@),
            None => spec_glossary_item_of(v.model()) is None,
        }),
{
    let fs = match v {
        JsonValue::Obj(fs) => fs,
        _ => {
            return None;
        },
    };
    proof {
        lemma_obj_model(*fs);
    }
    let id = match field_i64(fs, "id") {
        Some(x) => x,
        None => {
            return None;
        },
    };
    let abbreviation = match field_opt_string(fs, "abbreviation") {
        Some(x) => x,
        None => {
            return None;
        },
    };
    let definition = match field_string(fs, "definition") {
        Some(x) => x,
        None => {
            return None;
        },
    };
    let first_season_for_stat = match field_opt_i64(fs, "firstSeasonForStat") {
        Some(x) => x,
        None => {
            return None;
        },
    };
    let full_name = match field_string(fs, "fullName") {
        Some(x) => x,
        None => {
            return None;
        },
    };
    let language_code = match field_string(fs, "languageCode") {
        Some(x) => x,
        None => {
            return None;
        },
    };
    let last_updated = match field_string(fs, "lastUpdated") {
        Some(x) => x,
        None => {
            return None;
        },
    };
    Some(
        GlossaryItem {
            id,
            abbreviation,
            definition,
            first_season_for_stat,
            full_name,
            language_code,
            last_updated,
        },
    )
}

/// The glossary terms denoted by a sequence of JSON documents.
pub open spec fn spec_glossary_of(js: Seq<Json>) -> Option<Seq<GlossaryItemModel>>
    decreases js.len(),
{
    if js.len() == 0 {
        Some(Seq::empty())
    } else {
        match spec_glossary_of(js.drop_last()) {
            None => None,
            Some(rest) => match spec_glossary_item_of(js.last()) {
                None => None,
                Some(g) => Some(rest.push(g)),
            },
        }
    }
}

proof fn lemma_glossary_prefix_none(js: Seq<Json>, k: int)
    requires
        0 <= k <= js.len(),
        spec_glossary_of(js.take(k)) is None,
    ensures
        spec_glossary_of(js) is None,
    decreases js.len() - k,
{
    if k < js.len() {
        assert(js.take(k + 1).drop_last() =~= js.take(k));
        lemma_glossary_prefix_none(js, k + 1);
    } else {
        assert(js.take(k) =~= js);
    }
}

/// Decodes a sequence of glossary terms.
pub fn glossary_of_json(vs: &Vec<JsonValue>) -> (r: Option<Vec<GlossaryItem>>)
    ensures
        (match r {
            Some(gs) => spec_glossary_of(seq_model(vs@)) == Some(seq_view(gs@)),
            None => spec_glossary_of(seq_model(vs@)) is None,
        }),
{
    let ghost js = seq_model(vs@);
    let mut out: Vec<GlossaryItem> = Vec::new();
    proof {
        assert(js.take(0) =~= Seq::empty());
        assert(seq_view(out@) =~= Seq::empty());
    }
    let mut k: usize = 0;
    while k < vs.len()
        invariant
            k <= vs@.len(),
            js == seq_model(vs@),
            js.len() == vs@.len(),
            spec_glossary_of(js.take(k as int)) == Some(seq_view(out@)),
        decreases vs@.len() - k,
    {
        proof {
            assert(js.take(k + 1).drop_last() =~= js.take(k as int));
            assert(js.take(k + 1).last() == js[k as int]);
        }
        match glossary_item_of_json(&vs[k]) {
            None => {
                proof {
                    lemma_glossary_prefix_none(js, k + 1);
                }
                return None;
            },
            Some(g) => {
                let ghost old_out = out@;
                out.push(g);
                proof {
                    assert(seq_view(out@) =~= seq_view(old_out).push(g@));
                }
                k = k + 1;
            },
        }
    }
    proof {
        assert(js.take(k as int) =~= js);
    }
    Some(out)
}

/// The envelope denoted by a JSON document.
pub open spec fn spec_glossary_response_of(j: Json) -> Option<GlossaryResponseModel> {
    match j {
        Json::Obj(fs) => match spec_obj_get(fs, "data"@) {
            Some(Json::Arr(items)) => match spec_glossary_of(items) {
                None => None,
                Some(data) => match spec_field_i64(fs, "total"@) {
                    None => None,
                    Some(total) => Some(GlossaryResponseModel { data, total }),
                },
            },
            _ => None,
        },
        _ => None,
    }
}

/// Decodes the glossary response envelope.
pub fn glossary_response_of_json(v: &JsonValue) -> (r: Option<GlossaryResponse>)
    ensures
        (match r {
            Some(resp) => spec_glossary_response_of(v.model()) == Some(resp@),
            None => spec_glossary_response_of(v.model()) is None,
        }),
{
    let fs = match v {
        JsonValue::Obj(fs) => fs,
        _ => {
            return None;
        },
    };
    proof {
        lemma_obj_model(*fs);
    }
    let items = match obj_get(fs, "data") {
        Some(JsonValue::Arr(items)) => items,
        _ => {
            return None;
        },
    };
    proof {
        lemma_arr_model(*items);
    }
    let data = match glossary_of_json(items) {
        Some(d) => d,
        None => {
            return None;
        },
    };
    let total = match field_i64(fs, "total") {
        Some(t) => t,
        None => {
            return None;
        },
    };
    Some(GlossaryResponse { data, total })
}

/// The collection owed for an outcome of the glossary endpoint.
pub open spec fn spec_get_glossary(o: OutcomeModel) -> Result<Seq<GlossaryItemModel>, u16> {
    match spec_fetch_json(o) {
        Err(e) => Err(e),
        Ok(j) => match spec_glossary_response_of(j) {
            None => Err(STATUS_BAD_REQUEST),
            Some(resp) => Ok(resp.data),
        },
    }
}

/// Matches a glossary term by its identifier.
pub open spec fn glossary_id_pred(id: int) -> spec_fn(GlossaryItemModel) -> bool {
    |g: GlossaryItemModel| g.id == id
}

/// The abbreviation a term is compared under: a missing abbreviation
/// stands in as the empty text, as the upstream data sometimes omits it.
pub open spec fn abbreviation_or_empty(g: GlossaryItemModel) -> Seq<char> {
    match g.abbreviation {
        Some(a) => a,
        None => Seq::empty(),
    }
}

/// Matches a glossary term whose abbreviation uppercases to `key`.
pub open spec fn glossary_abbreviation_pred(key: Seq<char>) -> spec_fn(GlossaryItemModel) -> bool {
    |g: GlossaryItemModel| upper_of(abbreviation_or_empty(g)) == key
}

impl Client {
    /// The URL the glossary collection is fetched from.
    pub fn glossary_url(&self) -> (r: String)
        ensures
            r@ == spec_resource_url(self.stats_base_url@, self.language@, "glossary"@),
    {
        self.resource_url("glossary")
    }

    /// Retrieve a list of glossary terms, from what the glossary
    /// endpoint's GET came back with.
    ///
    /// # Errors
    /// If the upstream API answers with an error, then the corresponding
    /// HTTP error code is returned.
    pub fn get_glossary(&self, outcome: HttpOutcome) -> (r: Result<Vec<GlossaryItem>, u16>)
        ensures
            (match r {
                Ok(gs) => spec_get_glossary(outcome.model()) == Ok::<_, u16>(seq_view(gs@)),
                Err(e) => spec_get_glossary(outcome.model()) == Err::<
                    Seq<GlossaryItemModel>,
                    _,
                >(e),
            }),
    {
        let j = match fetch_json(outcome) {
            Ok(j) => j,
            Err(e) => {
                return Err(e);
            },
        };
        match glossary_response_of_json(&j) {
            Some(resp) => Ok(resp.data),
            None => Err(STATUS_BAD_REQUEST),
        }
    }

    /// Retrieve a glossary item by a given `glossary_id`.
    ///
    /// # Errors
    /// If the upstream API answers with an error, then the corresponding
    /// HTTP error code is returned.
    pub fn get_glossary_item_by_id(&self, outcome: HttpOutcome, glossary_id: i64) -> (r: Result<
        Option<GlossaryItem>,
        u16,
    >)
        ensures
            (match r {
                Ok(g) => {
                    &&& spec_get_glossary(outcome.model()) matches Ok(gs)
                    &&& opt_view(g) == find_first(gs, glossary_id_pred(glossary_id as int))
                },
                Err(e) => spec_get_glossary(outcome.model()) == Err::<
                    Seq<GlossaryItemModel>,
                    _,
                >(e),
            }),
    {
        let mut list = match self.get_glossary(outcome) {
            Ok(l) => l,
            Err(e) => {
                return Err(e);
            },
        };
        let ghost gs = seq_view(list@);
        let ghost pred = glossary_id_pred(glossary_id as int);
        proof {
            assert(gs.skip(0) =~= gs);
        }
        let mut k: usize = 0;
        while k < list.len()
            invariant
                k <= list@.len(),
                gs == seq_view(list@),
                gs.len() == list@.len(),
                spec_get_glossary(outcome.model()) == Ok::<_, u16>(gs),
                pred == glossary_id_pred(glossary_id as int),
                find_first(gs, pred) == find_first(gs.skip(k as int), pred),
            decreases list@.len() - k,
        {
            if list[k].id == glossary_id {
                proof {
                    lemma_find_first_skip_found(gs, pred, k as int);
                }
                let g = list.remove(k);
                return Ok(Some(g));
            }
            proof {
                lemma_find_first_skip_step(gs, pred, k as int);
            }
            k = k + 1;
        }
        proof {
            assert(gs.skip(k as int) =~= Seq::empty());
        }
        Ok(None)
    }

    /// Retrieve a glossary item by a given `glossary_abbreviation`,
    /// compared case-insensitively; a term without an abbreviation
    /// matches as if its abbreviation were empty.
    ///
    /// # Errors
    /// If the upstream API answers with an error, then the corresponding
    /// HTTP error code is returned.
    pub fn get_glossary_item_by_abbreviation(
        &self,
        outcome: HttpOutcome,
        glossary_abbreviation: &str,
    ) -> (r: Result<Option<GlossaryItem>, u16>)
        ensures
            (match r {
                Ok(g) => {
                    &&& spec_get_glossary(outcome.model()) matches Ok(gs)
                    &&& opt_view(g) == find_first(
                        gs,
                        glossary_abbreviation_pred(upper_of(glossary_abbreviation@)),
                    )
                },
                Err(e) => spec_get_glossary(outcome.model()) == Err::<
                    Seq<GlossaryItemModel>,
                    _,
                >(e),
            }),
    {
        let mut list = match self.get_glossary(outcome) {
            Ok(l) => l,
            Err(e) => {
                return Err(e);
            },
        };
        let key = to_upper(glossary_abbreviation);
        let ghost gs = seq_view(list@);
        let ghost pred = glossary_abbreviation_pred(upper_of(glossary_abbreviation@));
        proof {
            assert(gs.skip(0) =~= gs);
        }
        let mut k: usize = 0;
        while k < list.len()
            invariant
                k <= list@.len(),
                gs == seq_view(list@),
                gs.len() == list@.len(),
                spec_get_glossary(outcome.model()) == Ok::<_, u16>(gs),
                key@ == upper_of(glossary_abbreviation@),
                pred == glossary_abbreviation_pred(upper_of(glossary_abbreviation@)),
                find_first(gs, pred) == find_first(gs.skip(k as int), pred),
            decreases list@.len() - k,
        {
            let cand = match &list[k].abbreviation {
                Some(a) => to_upper(a.as_str()),
                None => to_upper(""),
            };
            proof {
                reveal_strlit("");
                assert(""@ =~= Seq::<char>::empty());
                assert(cand@ == upper_of(abbreviation_or_empty(gs[k as int])));
            }
            if cand == key {
                proof {
                    lemma_find_first_skip_found(gs, pred, k as int);
                }
                let g = list.remove(k);
                return Ok(Some(g));
            }
            proof {
                lemma_find_first_skip_step(gs, pred, k as int);
            }
            k = k + 1;
        }
        proof {
            assert(gs.skip(k as int) =~= Seq::empty());
        }
        Ok(None)
    }
}

/// Law: the accessor surfaces every transport or decode failure as the
/// pathway's error code — an upstream error status as itself, and a body
/// that does not decode into the expected shape as the bad-request code.
pub proof fn lemma_glossary_error_mapping(o: OutcomeModel)
    ensures
        spec_fetch_json(o) matches Err(e) ==> spec_get_glossary(o) == Err::<Seq<GlossaryItemModel>, u16>(e),
        (spec_fetch_json(o) matches Ok(j) && spec_glossary_response_of(j) is None) ==> spec_get_glossary(o) == Err::<Seq<GlossaryItemModel>, u16>(
            STATUS_BAD_REQUEST,
        ),
{
}

} // verus!
