//! The game metadata resource: a schema description of the game entity —
//! its property names and types and the links it offers — rather than
//! game data itself.

use vstd::prelude::*;
use crate::client::Client;
use crate::http::{HttpOutcome, OutcomeModel, spec_fetch_json, fetch_json};
use crate::json::{
    Json, JsonValue, lemma_arr_model, lemma_obj_model, seq_model, spec_field_opt_bool,
    spec_field_opt_string, spec_field_string, spec_obj_get, field_opt_bool, field_opt_string,
    field_string, obj_get,
};
use crate::{STATUS_BAD_REQUEST, seq_view};

verus! {

/// One operation offered by a metadata link.
#[derive(Debug, Clone, PartialEq, Eq)]
pub struct Operation {
    pub method: String,
}

/// The mathematical model of an [`Operation`].
pub struct OperationModel {
    pub method: Seq<char>,
}

impl View for Operation {
    type V = OperationModel;

    open spec fn view(&self) -> OperationModel {
        OperationModel { method: self.method@ }
    }
}

/// One property of the described entity.
#[derive(Debug, Clone, PartialEq, Eq)]
pub struct Property {
    pub name: String,
    pub type_field: String,
    pub format: Option<String>,
    pub relationship: Option<bool>,
}

/// The mathematical model of a [`Property`].
pub struct PropertyModel {
    pub name: Seq<char>,
    pub type_field: Seq<char>,
    pub format: Option<Seq<char>>,
    pub relationship: Option<bool>,
}

impl View for Property {
    type V = PropertyModel;

    open spec fn view(&self) -> PropertyModel {
        PropertyModel {
            name: self.name@,
            type_field: self.type_field@,
            format: self.format.deep_view(),
            relationship: self.relationship,
        }
    }
}

/// One link of the metadata payload.
#[derive(Debug, Clone, PartialEq, Eq)]
pub struct Link {
    pub href: String,
    pub type_field: String,
    pub operations: Vec<Operation>,
}

/// The mathematical model of a [`Link`].
pub struct LinkModel {
    pub href: Seq<char>,
    pub type_field: Seq<char>,
    pub operations: Seq<OperationModel>,
}

impl View for Link {
    type V = LinkModel;

    open spec fn view(&self) -> LinkModel {
        LinkModel {
            href: self.href@,
            type_field: self.type_field@,
            operations: seq_view(self.operations@),
        }
    }
}

/// The described entity: its name and its properties.
#[derive(Debug, Clone, PartialEq, Eq)]
pub struct Entity {
    pub name: String,
    pub properties: Vec<Property>,
}

/// The mathematical model of an [`Entity`].
pub struct EntityModel {
    pub name: Seq<char>,
    pub properties: Seq<PropertyModel>,
}

impl View for Entity {
    type V = EntityModel;

    open spec fn view(&self) -> EntityModel {
        EntityModel { name: self.name@, properties: seq_view(self.properties@) }
    }
}

/// The response payload of the game metadata endpoint.
#[derive(Debug, Clone, PartialEq, Eq)]
pub struct GameMetadataResponse {
    pub entity: Entity,
    pub links: Vec<Link>,
}

/// The mathematical model of a [`GameMetadataResponse`].
pub struct GameMetadataResponseModel {
    pub entity: EntityModel,
    pub links: Seq<LinkModel>,
}

impl View for GameMetadataResponse {
    type V = GameMetadataResponseModel;

    open spec fn view(&self) -> GameMetadataResponseModel {
        GameMetadataResponseModel { entity: self.entity@, links: seq_view(self.links@) }
    }
}

/// The operation denoted by one JSON document.
pub open spec fn spec_operation_of(j: Json) -> Option<OperationModel> {
    match j {
        Json::Obj(fs) => match spec_field_string(fs, "method"@) {
            Some(method) => Some(OperationModel { method }),
            None => None,
        },
        _ => None,
    }
}

/// Decodes one operation.
pub fn operation_of_json(v: &JsonValue) -> (r: Option<Operation>)
    ensures
        (match r {
            Some(op) => spec_operation_of(v.model()) == Some(op@),
            None => spec_operation_of(v.model()) is None,
        }),
{
    let fs = match v {
        JsonValue::Obj(fs) => fs,
        _ => {
            return None;
        },
    };
    proof {
        lemma_obj_model(*fs);
    }
    match field_string(fs, "method") {
        Some(method) => Some(Operation { method }),
        None => None,
    }
}

/// The operations denoted by a sequence of JSON documents.
pub open spec fn spec_operations_of(js: Seq<Json>) -> Option<Seq<OperationModel>>
    decreases js.len(),
{
    if js.len() == 0 {
        Some(Seq::empty())
    } else {
        match spec_operations_of(js.drop_last()) {
            None => None,
            Some(rest) => match spec_operation_of(js.last()) {
                None => None,
                Some(op) => Some(rest.push(op)),
            },
        }
    }
}

proof fn lemma_operations_prefix_none(js: Seq<Json>, k: int)
    requires
        0 <= k <= js.len(),
        spec_operations_of(js.take(k)) is None,
    ensures
        spec_operations_of(js) is None,
    decreases js.len() - k,
{
    if k < js.len() {
        assert(js.take(k + 1).drop_last() =~= js.take(k));
        lemma_operations_prefix_none(js, k + 1);
    } else {
        assert(js.take(k) =~= js);
    }
}

/// Decodes a sequence of operations.
pub fn operations_of_json(vs: &Vec<JsonValue>) -> (r: Option<Vec<Operation>>)
    ensures
        (match r {
            Some(ops) => spec_operations_of(seq_model(vs@)) == Some(seq_view(ops@)),
            None => spec_operations_of(seq_model(vs@)) is None,
        }),
{
    let ghost js = seq_model(vs@);
    let mut out: Vec<Operation> = Vec::new();
    proof {
        assert(js.take(0) =~= Seq::empty());
        assert(seq_view(out@) =~= Seq::empty());
    }
    let mut k: usize = 0;
    while k < vs.len()
        invariant
            k <= vs@.len(),
            js == seq_model(vs@),
            js.len() == vs@.len(),
            spec_operations_of(js.take(k as int)) == Some(seq_view(out@)),
        decreases vs@.len() - k,
    {
        proof {
            assert(js.take(k + 1).drop_last() =~= js.take(k as int));
            assert(js.take(k + 1).last() == js[k as int]);
        }
        match operation_of_json(&vs[k]) {
            None => {
                proof {
                    lemma_operations_prefix_none(js, k + 1);
                }
                return None;
            },
            Some(op) => {
                let ghost old_out = out@;
                out.push(op);
                proof {
                    assert(seq_view(out@) =~= seq_view(old_out).push(op@));
                }
                k = k + 1;
            },
        }
    }
    proof {
        assert(js.take(k as int) =~= js);
    }
    Some(out)
}

/// The property denoted by one JSON document; the wire name of the type
/// field is `type`.
pub open spec fn spec_property_of(j: Json) -> Option<PropertyModel> {
    match j {
        Json::Obj(fs) => if spec_field_string(fs, "name"@) is Some && spec_field_string(
            fs,
            "type"@,
        ) is Some && spec_field_opt_string(fs, "format"@) is Some && spec_field_opt_bool(
            fs,
            "relationship"@,
        ) is Some {
            Some(
                PropertyModel {
                    name: spec_field_string(fs, "name"@)->Some_0,
                    type_field: spec_field_string(fs, "type"@)->Some_0,
                    format: spec_field_opt_string(fs, "format"@)->Some_0,
                    relationship: spec_field_opt_bool(fs, "relationship"@)->Some_0,
                },
            )
        } else {
            None
        },
        _ => None,
    }
}

/// Decodes one property.
pub fn property_of_json(v: &JsonValue) -> (r: Option<Property>)
    ensures
        (match r {
            Some(p) => spec_property_of(v.model()) == Some(p@),
            None => spec_property_of(v.model()) is None,
        }),
{
    let fs = match v {
        JsonValue::Obj(fs) => fs,
        _ => {
            return None;
        },
    };
    proof {
        lemma_obj_model(*fs);
    }
    let name = match field_string(fs, "name") {
        Some(x) => x,
        None => {
            return None;
        },
    };
    let type_field = match field_string(fs, "type") {
        Some(x) => x,
        None => {
            return None;
        },
    };
    let format = match field_opt_string(fs, "format") {
        Some(x) => x,
        None => {
            return None;
        },
    };
    let relationship = match field_opt_bool(fs, "relationship") {
        Some(x) => x,
        None => {
            return None;
        },
    };
    Some(Property { name, type_field, format, relationship })
}

/// The properties denoted by a sequence of JSON documents.
pub open spec fn spec_properties_of(js: Seq<Json>) -> Option<Seq<PropertyModel>>
    decreases js.len(),
{
    if js.len() == 0 {
        Some(Seq::empty())
    } else {
        match spec_properties_of(js.drop_last()) {
            None => None,
            Some(rest) => match spec_property_of(js.last()) {
                None => None,
                Some(p) => Some(rest.push(p)),
            },
        }
    }
}

proof fn lemma_properties_prefix_none(js: Seq<Json>, k: int)
    requires
        0 <= k <= js.len(),
        spec_properties_of(js.take(k)) is None,
    ensures
        spec_properties_of(js) is None,
    decreases js.len() - k,
{
    if k < js.len() {
        assert(js.take(k + 1).drop_last() =~= js.take(k));
        lemma_properties_prefix_none(js, k + 1);
    } else {
        assert(js.take(k) =~= js);
    }
}

/// Decodes a sequence of properties.
pub fn properties_of_json(vs: &Vec<JsonValue>) -> (r: Option<Vec<Property>>)
    ensures
        (match r {
            Some(ps) => spec_properties_of(seq_model(vs@)) == Some(seq_view(ps@)),
            None => spec_properties_of(seq_model(vs@)) is None,
        }),
{
    let ghost js = seq_model(vs@);
    let mut out: Vec<Property> = Vec::new();
    proof {
        assert(js.take(0) =~= Seq::empty());
        assert(seq_view(out@) =~= Seq::empty());
    }
    let mut k: usize = 0;
    while k < vs.len()
        invariant
            k <= vs@.len(),
            js == seq_model(vs@),
            js.len() == vs@.len(),
            spec_properties_of(js.take(k as int)) == Some(seq_view(out@)),
        decreases vs@.len() - k,
    {
        proof {
            assert(js.take(k + 1).drop_last() =~= js.take(k as int));
            assert(js.take(k + 1).last() == js[k as int]);
        }
        match property_of_json(&vs[k]) {
            None => {
                proof {
                    lemma_properties_prefix_none(js, k + 1);
                }
                return None;
            },
            Some(p) => {
                let ghost old_out = out@;
                out.push(p);
                proof {
                    assert(seq_view(out@) =~= seq_view(old_out).push(p@));
                }
                k = k + 1;
            },
        }
    }
    proof {
        assert(js.take(k as int) =~= js);
    }
    Some(out)
}

/// The link denoted by one JSON document; the wire name of the type
/// field is `type`.
pub open spec fn spec_link_of(j: Json) -> Option<LinkModel> {
    match j {
        Json::Obj(fs) => if spec_field_string(fs, "href"@) is Some && spec_field_string(
            fs,
            "type"@,
        ) is Some {
            match spec_obj_get(fs, "operations"@) {
                Some(Json::Arr(items)) => match spec_operations_of(items) {
                    None => None,
                    Some(operations) => Some(
                        LinkModel {
                            href: spec_field_string(fs, "href"@)->Some_0,
                            type_field: spec_field_string(fs, "type"@)->Some_0,
                            operations,
                        },
                    ),
                },
                _ => None,
            }
        } else {
            None
        },
        _ => None,
    }
}

/// Decodes one link.
pub fn link_of_json(v: &JsonValue) -> (r: Option<Link>)
    ensures
        (match r {
            Some(l) => spec_link_of(v.model()) == Some(l@),
            None => spec_link_of(v.model()) is None,
        }),
{
    let fs = match v {
        JsonValue::Obj(fs) => fs,
        _ => {
            return None;
        },
    };
    proof {
        lemma_obj_model(*fs);
    }
    let href = match field_string(fs, "href") {
        Some(x) => x,
        None => {
            return None;
        },
    };
    let type_field = match field_string(fs, "type") {
        Some(x) => x,
        None => {
            return None;
        },
    };
    let items = match obj_get(fs, "operations") {
        Some(JsonValue::Arr(items)) => items,
        _ => {
            return None;
        },
    };
    proof {
        lemma_arr_model(*items);
    }
    let operations = match operations_of_json(items) {
        Some(ops) => ops,
        None => {
            return None;
        },
    };
    Some(Link { href, type_field, operations })
}

/// The links denoted by a sequence of JSON documents.
pub open spec fn spec_links_of(js: Seq<Json>) -> Option<Seq<LinkModel>>
    decreases js.len(),
{
    if js.len() == 0 {
        Some(Seq::empty())
    } else {
        match spec_links_of(js.drop_last()) {
            None => None,
            Some(rest) => match spec_link_of(js.last()) {
                None => None,
                Some(l) => Some(rest.push(l)),
            },
        }
    }
}

proof fn lemma_links_prefix_none(js: Seq<Json>, k: int)
    requires
        0 <= k <= js.len(),
        spec_links_of(js.take(k)) is None,
    ensures
        spec_links_of(js) is None,
    decreases js.len() - k,
{
    if k < js.len() {
        assert(js.take(k + 1).drop_last() =~= js.take(k));
        lemma_links_prefix_none(js, k + 1);
    } else {
        assert(js.take(k) =~= js);
    }
}

/// Decodes a sequence of links.
pub fn links_of_json(vs: &Vec<JsonValue>) -> (r: Option<Vec<Link>>)
    ensures
        (match r {
            Some(ls) => spec_links_of(seq_model(vs@)) == Some(seq_view(ls@)),
            None => spec_links_of(seq_model(vs@)) is None,
        }),
{
    let ghost js = seq_model(vs@);
    let mut out: Vec<Link> = Vec::new();
    proof {
        assert(js.take(0) =~= Seq::empty());
        assert(seq_view(out@) =~= Seq::empty());
    }
    let mut k: usize = 0;
    while k < vs.len()
        invariant
            k <= vs@.len(),
            js == seq_model(vs@),
            js.len() == vs@.len(),
            spec_links_of(js.take(k as int)) == Some(seq_view(out@)),
        decreases vs@.len() - k,
    {
        proof {
            assert(js.take(k + 1).drop_last() =~= js.take(k as int));
            assert(js.take(k + 1).last() == js[k as int]);
        }
        match link_of_json(&vs[k]) {
            None => {
                proof {
                    lemma_links_prefix_none(js, k + 1);
                }
                return None;
            },
            Some(l) => {
                let ghost old_out = out@;
                out.push(l);
                proof {
                    assert(seq_view(out@) =~= seq_view(old_out).push(l@));
                }
                k = k + 1;
            },
        }
    }
    proof {
        assert(js.take(k as int) =~= js);
    }
    Some(out)
}

/// The entity denoted by one JSON document.
pub open spec fn spec_entity_of(j: Json) -> Option<EntityModel> {
    match j {
        Json::Obj(fs) => if spec_field_string(fs, "name"@) is Some {
            match spec_obj_get(fs, "properties"@) {
                Some(Json::Arr(items)) => match spec_properties_of(items) {
                    None => None,
                    Some(properties) => Some(
                        EntityModel {
                            name: spec_field_string(fs, "name"@)->Some_0,
                            properties,
                        },
                    ),
                },
                _ => None,
            }
        } else {
            None
        },
        _ => None,
    }
}

/// Decodes the entity.
pub fn entity_of_json(v: &JsonValue) -> (r: Option<Entity>)
    ensures
        (match r {
            Some(e) => spec_entity_of(v.model()) == Some(e@),
            None => spec_entity_of(v.model()) is None,
        }),
{
    let fs = match v {
        JsonValue::Obj(fs) => fs,
        _ => {
            return None;
        },
    };
    proof {
        lemma_obj_model(*fs);
    }
    let name = match field_string(fs, "name") {
        Some(x) => x,
        None => {
            return None;
        },
    };
    let items = match obj_get(fs, "properties") {
        Some(JsonValue::Arr(items)) => items,
        _ => {
            return None;
        },
    };
    proof {
        lemma_arr_model(*items);
    }
    let properties = match properties_of_json(items) {
        Some(ps) => ps,
        None => {
            return None;
        },
    };
    Some(Entity { name, properties })
}

/// The metadata payload denoted by a JSON document.
pub open spec fn spec_game_metadata_response_of(j: Json) -> Option<GameMetadataResponseModel> {
    match j {
        Json::Obj(fs) => match spec_obj_get(fs, "entity"@) {
            Some(ej) => match spec_entity_of(ej) {
                None => None,
                Some(entity) => match spec_obj_get(fs, "links"@) {
                    Some(Json::Arr(items)) => match spec_links_of(items) {
                        None => None,
                        Some(links) => Some(GameMetadataResponseModel { entity, links }),
                    },
                    _ => None,
                },
            },
            None => None,
        },
        _ => None,
    }
}

/// Decodes the metadata payload.
pub fn game_metadata_response_of_json(v: &JsonValue) -> (r: Option<GameMetadataResponse>)
    ensures
        (match r {
            Some(resp) => spec_game_metadata_response_of(v.model()) == Some(resp@),
            None => spec_game_metadata_response_of(v.model()) is None,
        }),
{
    let fs = match v {
        JsonValue::Obj(fs) => fs,
        _ => {
            return None;
        },
    };
    proof {
        lemma_obj_model(*fs);
    }
    let ej = match obj_get(fs, "entity") {
        Some(ej) => ej,
        None => {
            return None;
        },
    };
    let entity = match entity_of_json(ej) {
        Some(e) => e,
        None => {
            return None;
        },
    };
    let items = match obj_get(fs, "links") {
        Some(JsonValue::Arr(items)) => items,
        _ => {
            return None;
        },
    };
    proof {
        lemma_arr_model(*items);
    }
    let links = match links_of_json(items) {
        Some(ls) => ls,
        None => {
            return None;
        },
    };
    Some(GameMetadataResponse { entity, links })
}

/// The payload owed for an outcome of the game metadata endpoint.
pub open spec fn spec_get_game_metadata(o: OutcomeModel) -> Result<
    GameMetadataResponseModel,
    u16,
> {
    match spec_fetch_json(o) {
        Err(e) => Err(e),
        Ok(j) => match spec_game_metadata_response_of(j) {
            None => Err(STATUS_BAD_REQUEST),
            Some(resp) => Ok(resp),
        },
    }
}

impl Client {
    /// Get a metadata struct for games, from what the metadata endpoint's
    /// GET came back with.
    ///
    /// # Errors
    /// If the upstream API answers with an error, then the corresponding
    /// HTTP error code is returned.
    pub fn get_game_metadata(&self, outcome: HttpOutcome) -> (r: Result<
        GameMetadataResponse,
        u16,
    >)
        ensures
            (match r {
                Ok(resp) => spec_get_game_metadata(outcome.model()) == Ok::<_, u16>(resp@),
                Err(e) => spec_get_game_metadata(outcome.model()) == Err::<
                    GameMetadataResponseModel,
                    _,
                >(e),
            }),
    {
        let j = match fetch_json(outcome) {
            Ok(j) => j,
            Err(e) => {
                return Err(e);
            },
        };
        match game_metadata_response_of_json(&j) {
            Some(resp) => Ok(resp),
            None => Err(STATUS_BAD_REQUEST),
        }
    }
}

/// Law: the accessor surfaces every transport or decode failure as the
/// pathway's error code — an upstream error status as itself, and a body
/// that does not decode into the expected shape as the bad-request code.
pub proof fn lemma_game_metadata_error_mapping(o: OutcomeModel)
    ensures
        spec_fetch_json(o) matches Err(e) ==> spec_get_game_metadata(o) == Err::<GameMetadataResponseModel, u16>(e),
        (spec_fetch_json(o) matches Ok(j) && spec_game_metadata_response_of(j) is None) ==> spec_get_game_metadata(o) == Err::<GameMetadataResponseModel, u16>(
            STATUS_BAD_REQUEST,
        ),
{
}

} // verus!
