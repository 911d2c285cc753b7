//! The country resource: the item type, its JSON decoding, and the
//! client-side lookups over a fetched collection.

use vstd::prelude::*;
use crate::client::{Client, spec_resource_url};
use crate::http::{HttpOutcome, OutcomeModel, spec_fetch_json, fetch_json};
use crate::json::{
    Json, JsonValue, lemma_arr_model, lemma_obj_model, members_model, seq_model, spec_field_i64,
    spec_field_opt_string, spec_field_string, spec_obj_get, field_i64, field_opt_string,
    field_string, obj_get,
};
use crate::scan::{
    find_first, lemma_filter_membership, lemma_filter_take_step, lemma_find_first_skip_found,
    lemma_find_first_skip_step,
};
use crate::text::{to_upper, upper_of};
use crate::{STATUS_BAD_REQUEST, opt_view, seq_view};

verus! {

/// One country as the upstream API describes it.
#[derive(Debug, Clone, PartialEq, Eq)]
pub struct Country {
    pub id: String,
    pub country3code: String,
    pub country_code: String,
    pub country_name: String,
    pub has_player_stats: i64,
    pub image_url: Option<String>,
    pub ioc_code: String,
    pub is_active: i64,
    pub nationality_name: String,
    pub olympic_url: Option<String>,
    pub thumbnail_url: Option<String>,
}

/// The mathematical model of a [`Country`].
pub struct CountryModel {
    pub id: Seq<char>,
    pub country3code: Seq<char>,
    pub country_code: Seq<char>,
    pub country_name: Seq<char>,
    pub has_player_stats: int,
    pub image_url: Option<Seq<char>>,
    pub ioc_code: Seq<char>,
    pub is_active: int,
    pub nationality_name: Seq<char>,
    pub olympic_url: Option<Seq<char>>,
    pub thumbnail_url: Option<Seq<char>>,
}

impl View for Country {
    type V = CountryModel;

    open spec fn view(&self) -> CountryModel {
        CountryModel {
            id: self.id@,
            country3code: self.country3code@,
            country_code: self.country_code@,
            country_name: self.country_name@,
            has_player_stats: self.has_player_stats as int,
            image_url: self.image_url.deep_view(),
            ioc_code: self.ioc_code@,
            is_active: self.is_active as int,
            nationality_name: self.nationality_name@,
            olympic_url: self.olympic_url.deep_view(),
            thumbnail_url: self.thumbnail_url.deep_view(),
        }
    }
}

/// The response envelope of the country resource.
#[derive(Debug, Clone, PartialEq, Eq)]
pub struct CountriesResponse {
    pub data: Vec<Country>,
    pub total: i64,
}

/// The mathematical model of a [`CountriesResponse`].
pub struct CountriesResponseModel {
    pub data: Seq<CountryModel>,
    pub total: int,
}

impl View for CountriesResponse {
    type V = CountriesResponseModel;

    open spec fn view(&self) -> CountriesResponseModel {
        CountriesResponseModel { data: seq_view(self.data@), total: self.total as int }
    }
}

/// The country denoted by one JSON document, under the wire field names.
pub open spec fn spec_country_of(j: Json) -> Option<CountryModel> {
    match j {
        Json::Obj(fs) => if spec_field_string(fs, "id"@) is Some && spec_field_string(
            fs,
            "country3Code"@,
        ) is Some && spec_field_string(fs, "countryCode"@) is Some && spec_field_string(
            fs,
            "countryName"@,
        ) is Some && spec_field_i64(fs, "hasPlayerStats"@) is Some && spec_field_opt_string(
            fs,
            "imageUrl"@,
        ) is Some && spec_field_string(fs, "iocCode"@) is Some && spec_field_i64(
            fs,
            "isActive"@,
        ) is Some && spec_field_string(fs, "nationalityName"@) is Some && spec_field_opt_string(
            fs,
            "olympicUrl"@,
        ) is Some && spec_field_opt_string(fs, "thumbnailUrl"@) is Some {
            Some(
                CountryModel {
                    id: spec_field_string(fs, "id"@)->Some_0,
                    country3code: spec_field_string(fs, "country3Code"@)->Some_0,
                    country_code: spec_field_string(fs, "countryCode"@)->Some_0,
                    country_name: spec_field_string(fs, "countryName"@)->Some_0,
                    has_player_stats: spec_field_i64(fs, "hasPlayerStats"@)->Some_0,
                    image_url: spec_field_opt_string(fs, "imageUrl"@)->Some_0,
                    ioc_code: spec_field_string(fs, "iocCode"@)->Some_0,
                    is_active: spec_field_i64(fs, "isActive"@)->Some_0,
                    nationality_name: spec_field_string(fs, "nationalityName"@)->Some_0,
                    olympic_url: spec_field_opt_string(fs, "olympicUrl"@)->Some_0,
                    thumbnail_url: spec_field_opt_string(fs, "thumbnailUrl"@)->Some_0,
                },
            )
        } else {
            None
        },
        _ => None,
    }
}

/// Decodes one country.
pub fn country_of_json(v: &JsonValue) -> (r: Option<Country>)
    ensures
        (match r {
            Some(c) => spec_country_of(v.model()) == Some(c@),
            None => spec_country_of(v.model()) is None,
        }),
{
    let fs = match v {
        JsonValue::Obj(fs) => fs,
        _ => {
            return None;
        },
    };
    proof {
        lemma_obj_model(*fs);
    }
    let id = match field_string(fs, "id") {
        Some(x) => x,
        None => {
            return None;
        },
    };
    let country3code = match field_string(fs, "country3Code") {
        Some(x) => x,
        None => {
            return None;
        },
    };
    let country_code = match field_string(fs, "countryCode") {
        Some(x) => x,
        None => {
            return None;
        },
    };
    let country_name = match field_string(fs, "countryName") {
        Some(x) => x,
        None => {
            return None;
        },
    };
    let has_player_stats = match field_i64(fs, "hasPlayerStats") {
        Some(x) => x,
        None => {
            return None;
        },
    };
    let image_url = match field_opt_string(fs, "imageUrl") {
        Some(x) => x,
        None => {
            return None;
        },
    };
    let ioc_code = match field_string(fs, "iocCode") {
        Some(x) => x,
        None => {
            return None;
        },
    };
    let is_active = match field_i64(fs, "isActive") {
        Some(x) => x,
        None => {
            return None;
        },
    };
    let nationality_name = match field_string(fs, "nationalityName") {
        Some(x) => x,
        None => {
            return None;
        },
    };
    let olympic_url = match field_opt_string(fs, "olympicUrl") {
        Some(x) => x,
        None => {
            return None;
        },
    };
    let thumbnail_url = match field_opt_string(fs, "thumbnailUrl") {
        Some(x) => x,
        None => {
            return None;
        },
    };
    Some(
        Country {
            id,
            country3code,
            country_code,
            country_name,
            has_player_stats,
            image_url,
            ioc_code,
            is_active,
            nationality_name,
            olympic_url,
            thumbnail_url,
        },
    )
}

/// The countries denoted by a sequence of JSON documents; one bad element
/// fails the whole sequence.
pub open spec fn spec_countries_of(js: Seq<Json>) -> Option<Seq<CountryModel>>
    decreases js.len(),
{
    if js.len() == 0 {
        Some(Seq::empty())
    } else {
        match spec_countries_of(js.drop_last()) {
            None => None,
            Some(rest) => match spec_country_of(js.last()) {
                None => None,
                Some(c) => Some(rest.push(c)),
            },
        }
    }
}

proof fn lemma_countries_prefix_none(js: Seq<Json>, k: int)
    requires
        0 <= k <= js.len(),
        spec_countries_of(js.take(k)) is None,
    ensures
        spec_countries_of(js) is None,
    decreases js.len() - k,
{
    if k < js.len() {
        assert(js.take(k + 1).drop_last() =~= js.take(k));
        lemma_countries_prefix_none(js, k + 1);
    } else {
        assert(js.take(k) =~= js);
    }
}

/// Decodes a sequence of countries.
pub fn countries_of_json(vs: &Vec<JsonValue>) -> (r: Option<Vec<Country>>)
    ensures
        (match r {
            Some(cs) => spec_countries_of(seq_model(vs@)) == Some(seq_view(cs@)),
            None => spec_countries_of(seq_model(vs@)) is None,
        }),
{
    let ghost js = seq_model(vs@);
    let mut out: Vec<Country> = Vec::new();
    proof {
        assert(js.take(0) =~= Seq::empty());
        assert(seq_view(out@) =~= Seq::empty());
    }
    let mut k: usize = 0;
    while k < vs.len()
        invariant
            k <= vs@.len(),
            js == seq_model(vs@),
            js.len() == vs@.len(),
            spec_countries_of(js.take(k as int)) == Some(seq_view(out@)),
        decreases vs@.len() - k,
    {
        proof {
            assert(js.take(k + 1).drop_last() =~= js.take(k as int));
            assert(js.take(k + 1).last() == js[k as int]);
        }
        match country_of_json(&vs[k]) {
            None => {
                proof {
                    lemma_countries_prefix_none(js, k + 1);
                }
                return None;
            },
            Some(c) => {
                let ghost old_out = out@;
                out.push(c);
                proof {
                    assert(seq_view(out@) =~= seq_view(old_out).push(c@));
                }
                k = k + 1;
            },
        }
    }
    proof {
        assert(js.take(k as int) =~= js);
    }
    Some(out)
}

/// The envelope denoted by a JSON document: a `data` array of countries
/// and a `total` count.
pub open spec fn spec_countries_response_of(j: Json) -> Option<CountriesResponseModel> {
    match j {
        Json::Obj(fs) => match spec_obj_get(fs, "data"@) {
            Some(Json::Arr(items)) => match spec_countries_of(items) {
                None => None,
                Some(data) => match spec_field_i64(fs, "total"@) {
                    None => None,
                    Some(total) => Some(CountriesResponseModel { data, total }),
                },
            },
            _ => None,
        },
        _ => None,
    }
}

/// Decodes the country response envelope.
pub fn countries_response_of_json(v: &JsonValue) -> (r: Option<CountriesResponse>)
    ensures
        (match r {
            Some(resp) => spec_countries_response_of(v.model()) == Some(resp@),
            None => spec_countries_response_of(v.model()) is None,
        }),
{
    let fs = match v {
        JsonValue::Obj(fs) => fs,
        _ => {
            return None;
        },
    };
    proof {
        lemma_obj_model(*fs);
    }
    let items = match obj_get(fs, "data") {
        Some(JsonValue::Arr(items)) => items,
        _ => {
            return None;
        },
    };
    proof {
        lemma_arr_model(*items);
    }
    let data = match countries_of_json(items) {
        Some(d) => d,
        None => {
            return None;
        },
    };
    let total = match field_i64(fs, "total") {
        Some(t) => t,
        None => {
            return None;
        },
    };
    Some(CountriesResponse { data, total })
}

/// The collection owed for an outcome of the country endpoint: the
/// envelope's `data`, or the error code the pathway maps the outcome to.
pub open spec fn spec_get_countries(o: OutcomeModel) -> Result<Seq<CountryModel>, u16> {
    match spec_fetch_json(o) {
        Err(e) => Err(e),
        Ok(j) => match spec_countries_response_of(j) {
            None => Err(STATUS_BAD_REQUEST),
            Some(resp) => Ok(resp.data),
        },
    }
}

/// Matches a country whose identifier uppercases to `key`.
pub open spec fn country_id_pred(key: Seq<char>) -> spec_fn(CountryModel) -> bool {
    |c: CountryModel| upper_of(c.id) == key
}

/// Matches a country whose name uppercases to `key`.
pub open spec fn country_name_pred(key: Seq<char>) -> spec_fn(CountryModel) -> bool {
    |c: CountryModel| upper_of(c.country_name) == key
}

/// Matches a country whose olympic-committee code uppercases to `key`.
pub open spec fn country_ioc_pred(key: Seq<char>) -> spec_fn(CountryModel) -> bool {
    |c: CountryModel| upper_of(c.ioc_code) == key
}

/// Matches a country by its activity flag.
pub open spec fn country_activity_pred(flag: int) -> spec_fn(CountryModel) -> bool {
    |c: CountryModel| c.is_active == flag
}

impl Client {
    /// The URL the country collection is fetched from.
    pub fn countries_url(&self) -> (r: String)
        ensures
            r@ == spec_resource_url(self.stats_base_url@, self.language@, "country"@),
    {
        self.resource_url("country")
    }

    /// Get a list of countries, from what the country endpoint's GET came
    /// back with.
    ///
    /// # Errors
    /// If the upstream API answers with an error, then the corresponding
    /// HTTP error code is returned.
    pub fn get_countries(&self, outcome: HttpOutcome) -> (r: Result<Vec<Country>, u16>)
        ensures
            (match r {
                Ok(cs) => spec_get_countries(outcome.model()) == Ok::<_, u16>(seq_view(cs@)),
                Err(e) => spec_get_countries(outcome.model()) == Err::<Seq<CountryModel>, _>(e),
            }),
    {
        let j = match fetch_json(outcome) {
            Ok(j) => j,
            Err(e) => {
                return Err(e);
            },
        };
        match countries_response_of_json(&j) {
            Some(resp) => Ok(resp.data),
            None => Err(STATUS_BAD_REQUEST),
        }
    }

    /// Get a country by an `id`, compared case-insensitively.
    ///
    /// # Errors
    /// If the upstream API answers with an error, then the corresponding
    /// HTTP error code is returned.
    pub fn get_country_by_id(&self, outcome: HttpOutcome, id: &str) -> (r: Result<
        Option<Country>,
        u16,
    >)
        ensures
            (match r {
                Ok(c) => {
                    &&& spec_get_countries(outcome.model()) matches Ok(cs)
                    &&& opt_view(c) == find_first(cs, country_id_pred(upper_of(id@)))
                },
                Err(e) => spec_get_countries(outcome.model()) == Err::<Seq<CountryModel>, _>(e),
            }),
    {
        let mut list = match self.get_countries(outcome) {
            Ok(l) => l,
            Err(e) => {
                return Err(e);
            },
        };
        let key = to_upper(id);
        let ghost cs = seq_view(list@);
        let ghost pred = country_id_pred(upper_of(id@));
        proof {
            assert(cs.skip(0) =~= cs);
        }
        let mut k: usize = 0;
        while k < list.len()
            invariant
                k <= list@.len(),
                cs == seq_view(list@),
                cs.len() == list@.len(),
                spec_get_countries(outcome.model()) == Ok::<_, u16>(cs),
                key@ == upper_of(id@),
                pred == country_id_pred(upper_of(id@)),
                find_first(cs, pred) == find_first(cs.skip(k as int), pred),
            decreases list@.len() - k,
        {
            let cand = to_upper(list[k].id.as_str());
            if cand == key {
                proof {
                    lemma_find_first_skip_found(cs, pred, k as int);
                }
                let c = list.remove(k);
                return Ok(Some(c));
            }
            proof {
                lemma_find_first_skip_step(cs, pred, k as int);
            }
            k = k + 1;
        }
        proof {
            assert(cs.skip(k as int) =~= Seq::empty());
        }
        Ok(None)
    }

    /// Get a country by a `country_name`, compared case-insensitively.
    ///
    /// # Errors
    /// If the upstream API answers with an error, then the corresponding
    /// HTTP error code is returned.
    pub fn get_country_by_country_name(&self, outcome: HttpOutcome, country_name: &str) -> (r:
        Result<Option<Country>, u16>)
        ensures
            (match r {
                Ok(c) => {
                    &&& spec_get_countries(outcome.model()) matches Ok(cs)
                    &&& opt_view(c) == find_first(cs, country_name_pred(upper_of(country_name@)))
                },
                Err(e) => spec_get_countries(outcome.model()) == Err::<Seq<CountryModel>, _>(e),
            }),
    {
        let mut list = match self.get_countries(outcome) {
            Ok(l) => l,
            Err(e) => {
                return Err(e);
            },
        };
        let key = to_upper(country_name);
        let ghost cs = seq_view(list@);
        let ghost pred = country_name_pred(upper_of(country_name@));
        proof {
            assert(cs.skip(0) =~= cs);
        }
        let mut k: usize = 0;
        while k < list.len()
            invariant
                k <= list@.len(),
                cs == seq_view(list@),
                cs.len() == list@.len(),
                spec_get_countries(outcome.model()) == Ok::<_, u16>(cs),
                key@ == upper_of(country_name@),
                pred == country_name_pred(upper_of(country_name@)),
                find_first(cs, pred) == find_first(cs.skip(k as int), pred),
            decreases list@.len() - k,
        {
            let cand = to_upper(list[k].country_name.as_str());
            if cand == key {
                proof {
                    lemma_find_first_skip_found(cs, pred, k as int);
                }
                let c = list.remove(k);
                return Ok(Some(c));
            }
            proof {
                lemma_find_first_skip_step(cs, pred, k as int);
            }
            k = k + 1;
        }
        proof {
            assert(cs.skip(k as int) =~= Seq::empty());
        }
        Ok(None)
    }

    /// Get a country by a `country_ioc_code`, compared case-insensitively.
    ///
    /// # Errors
    /// If the upstream API answers with an error, then the corresponding
    /// HTTP error code is returned.
    pub fn get_country_by_ioc_code(&self, outcome: HttpOutcome, country_ioc_code: &str) -> (r:
        Result<Option<Country>, u16>)
        ensures
            (match r {
                Ok(c) => {
                    &&& spec_get_countries(outcome.model()) matches Ok(cs)
                    &&& opt_view(c) == find_first(cs, country_ioc_pred(upper_of(country_ioc_code@)))
                },
                Err(e) => spec_get_countries(outcome.model()) == Err::<Seq<CountryModel>, _>(e),
            }),
    {
        let mut list = match self.get_countries(outcome) {
            Ok(l) => l,
            Err(e) => {
                return Err(e);
            },
        };
        let key = to_upper(country_ioc_code);
        let ghost cs = seq_view(list@);
        let ghost pred = country_ioc_pred(upper_of(country_ioc_code@));
        proof {
            assert(cs.skip(0) =~= cs);
        }
        let mut k: usize = 0;
        while k < list.len()
            invariant
                k <= list@.len(),
                cs == seq_view(list@),
                cs.len() == list@.len(),
                spec_get_countries(outcome.model()) == Ok::<_, u16>(cs),
                key@ == upper_of(country_ioc_code@),
                pred == country_ioc_pred(upper_of(country_ioc_code@)),
                find_first(cs, pred) == find_first(cs.skip(k as int), pred),
            decreases list@.len() - k,
        {
            let cand = to_upper(list[k].ioc_code.as_str());
            if cand == key {
                proof {
                    lemma_find_first_skip_found(cs, pred, k as int);
                }
                let c = list.remove(k);
                return Ok(Some(c));
            }
            proof {
                lemma_find_first_skip_step(cs, pred, k as int);
            }
            k = k + 1;
        }
        proof {
            assert(cs.skip(k as int) =~= Seq::empty());
        }
        Ok(None)
    }

    /// Keeps the countries whose activity flag equals `is_active`.
    fn get_counties_by_activity(&self, outcome: HttpOutcome, is_active: i64) -> (r: Result<
        Vec<Country>,
        u16,
    >)
        ensures
            (match r {
                Ok(cs) => {
                    &&& spec_get_countries(outcome.model()) matches Ok(all)
                    &&& seq_view(cs@) == all.filter(country_activity_pred(is_active as int))
                },
                Err(e) => spec_get_countries(outcome.model()) == Err::<Seq<CountryModel>, _>(e),
            }),
    {
        let mut list = match self.get_countries(outcome) {
            Ok(l) => l,
            Err(e) => {
                return Err(e);
            },
        };
        let ghost cs = seq_view(list@);
        let ghost pred = country_activity_pred(is_active as int);
        let mut out: Vec<Country> = Vec::new();
        proof {
            assert(cs.take(0) =~= Seq::empty());
            assert(cs.take(0).filter(pred) =~= Seq::empty());
            assert(seq_view(out@) =~= Seq::empty());
        }
        let mut k: usize = 0;
        while k < list.len()
            invariant
                k <= list@.len(),
                cs == seq_view(list@),
                cs.len() == list@.len(),
                spec_get_countries(outcome.model()) == Ok::<_, u16>(cs),
                pred == country_activity_pred(is_active as int),
                seq_view(out@) == cs.take(k as int).filter(pred),
            decreases list@.len() - k,
        {
            proof {
                lemma_filter_take_step(cs, pred, k as int);
            }
            if list[k].is_active == is_active {
                let ghost old_out = out@;
                let c = list_get(&list, k);
                out.push(c);
                proof {
                    assert(seq_view(out@) =~= seq_view(old_out).push(cs[k as int]));
                }
            }
            k = k + 1;
        }
        proof {
            assert(cs.take(k as int) =~= cs);
        }
        Ok(out)
    }

    /// Get all active countries.
    ///
    /// # Errors
    /// If the upstream API answers with an error, then the corresponding
    /// HTTP error code is returned.
    pub fn get_active_countries(&self, outcome: HttpOutcome) -> (r: Result<Vec<Country>, u16>)
        ensures
            (match r {
                Ok(cs) => {
                    &&& spec_get_countries(outcome.model()) matches Ok(all)
                    &&& seq_view(cs@) == all.filter(country_activity_pred(1))
                },
                Err(e) => spec_get_countries(outcome.model()) == Err::<Seq<CountryModel>, _>(e),
            }),
    {
        self.get_counties_by_activity(outcome, 1)
    }

    /// Get all inactive countries.
    ///
    /// # Errors
    /// If the upstream API answers with an error, then the corresponding
    /// HTTP error code is returned.
    pub fn get_inactive_countries(&self, outcome: HttpOutcome) -> (r: Result<Vec<Country>, u16>)
        ensures
            (match r {
                Ok(cs) => {
                    &&& spec_get_countries(outcome.model()) matches Ok(all)
                    &&& seq_view(cs@) == all.filter(country_activity_pred(0))
                },
                Err(e) => spec_get_countries(outcome.model()) == Err::<Seq<CountryModel>, _>(e),
            }),
    {
        self.get_counties_by_activity(outcome, 0)
    }
}

/// Law: the active and the inactive countries partition the fetched
/// collection restricted to the two values of the activity flag — no
/// country stands in both, none with flag 0 or 1 is left out, and neither
/// side holds anything else.
pub proof fn lemma_activity_partition(cs: Seq<CountryModel>)
    ensures
        forall|c: CountryModel|
            #[trigger] cs.filter(country_activity_pred(1)).contains(c) ==> cs.contains(c)
                && c.is_active == 1,
        forall|c: CountryModel|
            #[trigger] cs.filter(country_activity_pred(0)).contains(c) ==> cs.contains(c)
                && c.is_active == 0,
        forall|c: CountryModel|
            cs.contains(c) && (c.is_active == 1 || c.is_active == 0) ==> (#[trigger] cs.filter(
                country_activity_pred(1),
            ).contains(c) || cs.filter(country_activity_pred(0)).contains(c)),
        forall|c: CountryModel|
            !(#[trigger] cs.filter(country_activity_pred(1)).contains(c) && cs.filter(
                country_activity_pred(0),
            ).contains(c)),
{
    lemma_filter_membership(cs, country_activity_pred(1));
    lemma_filter_membership(cs, country_activity_pred(0));
}

/// Hands out a copy of one element of a fetched collection.
fn list_get(list: &Vec<Country>, k: usize) -> (r: Country)
    requires
        k < list@.len(),
    ensures
        r@ == list@[k as int]@,
{
    let c = &list[k];
    Country {
        id: c.id.clone(),
        country3code: c.country3code.clone(),
        country_code: c.country_code.clone(),
        country_name: c.country_name.clone(),
        has_player_stats: c.has_player_stats,
        image_url: opt_clone(&c.image_url),
        ioc_code: c.ioc_code.clone(),
        is_active: c.is_active,
        nationality_name: c.nationality_name.clone(),
        olympic_url: opt_clone(&c.olympic_url),
        thumbnail_url: opt_clone(&c.thumbnail_url),
    }
}

/// Copies an optional string.
fn opt_clone(o: &Option<String>) -> (r: Option<String>)
    ensures
        r.deep_view() == o.deep_view(),
{
    match o {
        Some(s) => Some(s.clone()),
        None => None,
    }
}

/// Law: the accessor surfaces every transport or decode failure as the
/// pathway's error code — an upstream error status as itself, and a body
/// that does not decode into the expected shape as the bad-request code.
pub proof fn lemma_countries_error_mapping(o: OutcomeModel)
    ensures
        spec_fetch_json(o) matches Err(e) ==> spec_get_countries(o) == Err::<Seq<CountryModel>, u16>(e),
        (spec_fetch_json(o) matches Ok(j) && spec_countries_response_of(j) is None) ==> spec_get_countries(o) == Err::<Seq<CountryModel>, u16>(
            STATUS_BAD_REQUEST,
        ),
{
}

} // verus!
