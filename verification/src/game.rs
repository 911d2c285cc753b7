//! The game resource: played and scheduled games, the lookups over a
//! fetched collection, and the schema-description metadata endpoint.

use vstd::prelude::*;
use crate::client::{Client, spec_resource_url};
use crate::http::{HttpOutcome, OutcomeModel, spec_fetch_json, fetch_json};
use crate::json::{
    Json, JsonValue, lemma_arr_model, lemma_obj_model, seq_model, spec_field_i64,
    spec_field_opt_i64, spec_field_string, spec_obj_get, field_i64, field_opt_i64, field_string,
    obj_get, opt_int_view,
};
use crate::scan::{
    find_first, lemma_filter_membership, lemma_filter_take_step, lemma_find_first_skip_found,
    lemma_find_first_skip_step,
};
use crate::{STATUS_BAD_REQUEST, opt_view, seq_view};

verus! {

/// One game as the upstream API describes it.
#[derive(Debug, Clone, PartialEq, Eq)]
pub struct Game {
    pub id: i64,
    pub eastern_start_time: String,
    pub game_date: String,
    pub game_number: i64,
    pub game_schedule_state_id: i64,
    pub game_state_id: i64,
    pub game_type: i64,
    pub home_score: i64,
    pub home_team_id: i64,
    pub period: Option<i64>,
    pub season: i64,
    pub visiting_score: i64,
    pub visiting_team_id: i64,
}

/// The mathematical model of a [`Game`].
pub struct GameModel {
    pub id: int,
    pub eastern_start_time: Seq<char>,
    pub game_date: Seq<char>,
    pub game_number: int,
    pub game_schedule_state_id: int,
    pub game_state_id: int,
    pub game_type: int,
    pub home_score: int,
    pub home_team_id: int,
    pub period: Option<int>,
    pub season: int,
    pub visiting_score: int,
    pub visiting_team_id: int,
}

impl View for Game {
    type V = GameModel;

    open spec fn view(&self) -> GameModel {
        GameModel {
            id: self.id as int,
            eastern_start_time: self.eastern_start_time@,
            game_date: self.game_date@,
            game_number: self.game_number as int,
            game_schedule_state_id: self.game_schedule_state_id as int,
            game_state_id: self.game_state_id as int,
            game_type: self.game_type as int,
            home_score: self.home_score as int,
            home_team_id: self.home_team_id as int,
            period: opt_int_view(self.period),
            season: self.season as int,
            visiting_score: self.visiting_score as int,
            visiting_team_id: self.visiting_team_id as int,
        }
    }
}

/// The response envelope of the game resource.
#[derive(Debug, Clone, PartialEq, Eq)]
pub struct GameResponse {
    pub data: Vec<Game>,
    pub total: i64,
}

/// The mathematical model of a [`GameResponse`].
pub struct GameResponseModel {
    pub data: Seq<GameModel>,
    pub total: int,
}

impl View for GameResponse {
    type V = GameResponseModel;

    open spec fn view(&self) -> GameResponseModel {
        GameResponseModel { data: seq_view(self.data@), total: self.total as int }
    }
}

/// The game denoted by one JSON document.
pub open spec fn spec_game_of(j: Json) -> Option<GameModel> {
    match j {
        Json::Obj(fs) => if spec_field_i64(fs, "id"@) is Some && spec_field_string(
            fs,
            "easternStartTime"@,
        ) is Some && spec_field_string(fs, "gameDate"@) is Some && spec_field_i64(
            fs,
            "gameNumber"@,
        ) is Some && spec_field_i64(fs, "gameScheduleStateId"@) is Some && spec_field_i64(
            fs,
            "gameStateId"@,
        ) is Some && spec_field_i64(fs, "gameType"@) is Some && spec_field_i64(
            fs,
            "homeScore"@,
        ) is Some && spec_field_i64(fs, "homeTeamId"@) is Some && spec_field_opt_i64(
            fs,
            "period"@,
        ) is Some && spec_field_i64(fs, "season"@) is Some && spec_field_i64(
            fs,
            "visitingScore"@,
        ) is Some && spec_field_i64(fs, "visitingTeamId"@) is Some {
            Some(
                GameModel {
                    id: spec_field_i64(fs, "id"@)->Some_0,
                    eastern_start_time: spec_field_string(fs, "easternStartTime"@)->Some_0,
                    game_date: spec_field_string(fs, "gameDate"@)->Some_0,
                    game_number: spec_field_i64(fs, "gameNumber"@)->Some_0,
                    game_schedule_state_id: spec_field_i64(fs, "gameScheduleStateId"@)->Some_0,
                    game_state_id: spec_field_i64(fs, "gameStateId"@)->Some_0,
                    game_type: spec_field_i64(fs, "gameType"@)->Some_0,
                    home_score: spec_field_i64(fs, "homeScore"@)->Some_0,
                    home_team_id: spec_field_i64(fs, "homeTeamId"@)->Some_0,
                    period: spec_field_opt_i64(fs, "period"@)->Some_0,
                    season: spec_field_i64(fs, "season"@)->Some_0,
                    visiting_score: spec_field_i64(fs, "visitingScore"@)->Some_0,
                    visiting_team_id: spec_field_i64(fs, "visitingTeamId"@)->Some_0,
                },
            )
        } else {
            None
        },
        _ => None,
    }
}

/// Decodes one game.
pub fn game_of_json(v: &JsonValue) -> (r: Option<Game>)
    ensures
        (match r {
            Some(g) => spec_game_of(v.model()) == Some(g@),
            None => spec_game_of(v.model()) is None,
        }),
{
    let fs = match v {
        JsonValue::Obj(fs) => fs,
        _ => {
            return None;
        },
    };
    proof {
        lemma_obj_model(*fs);
    }
    let id = match field_i64(fs, "id") {
        Some(x) => x,
        None => {
            return None;
        },
    };
    let eastern_start_time = match field_string(fs, "easternStartTime") {
        Some(x) => x,
        None => {
            return None;
        },
    };
    let game_date = match field_string(fs, "gameDate") {
        Some(x) => x,
        None => {
            return None;
        },
    };
    let game_number = match field_i64(fs, "gameNumber") {
        Some(x) => x,
        None => {
            return None;
        },
    };
    let game_schedule_state_id = match field_i64(fs, "gameScheduleStateId") {
        Some(x) => x,
        None => {
            return None;
        },
    };
    let game_state_id = match field_i64(fs, "gameStateId") {
        Some(x) => x,
        None => {
            return None;
        },
    };
    let game_type = match field_i64(fs, "gameType") {
        Some(x) => x,
        None => {
            return None;
        },
    };
    let home_score = match field_i64(fs, "homeScore") {
        Some(x) => x,
        None => {
            return None;
        },
    };
    let home_team_id = match field_i64(fs, "homeTeamId") {
        Some(x) => x,
        None => {
            return None;
        },
    };
    let period = match field_opt_i64(fs, "period") {
        Some(x) => x,
        None => {
            return None;
        },
    };
    let season = match field_i64(fs, "season") {
        Some(x) => x,
        None => {
            return None;
        },
    };
    let visiting_score = match field_i64(fs, "visitingScore") {
        Some(x) => x,
        None => {
            return None;
        },
    };
    let visiting_team_id = match field_i64(fs, "visitingTeamId") {
        Some(x) => x,
        None => {
            return None;
        },
    };
    Some(
        Game {
            id,
            eastern_start_time,
            game_date,
            game_number,
            game_schedule_state_id,
            game_state_id,
            game_type,
            home_score,
            home_team_id,
            period,
            season,
            visiting_score,
            visiting_team_id,
        },
    )
}

/// The games denoted by a sequence of JSON documents.
pub open spec fn spec_games_of(js: Seq<Json>) -> Option<Seq<GameModel>>
    decreases js.len(),
{
    if js.len() == 0 {
        Some(Seq::empty())
    } else {
        match spec_games_of(js.drop_last()) {
            None => None,
            Some(rest) => match spec_game_of(js.last()) {
                None => None,
                Some(g) => Some(rest.push(g)),
            },
        }
    }
}

proof fn lemma_games_prefix_none(js: Seq<Json>, k: int)
    requires
        0 <= k <= js.len(),
        spec_games_of(js.take(k)) is None,
    ensures
        spec_games_of(js) is None,
    decreases js.len() - k,
{
    if k < js.len() {
        assert(js.take(k + 1).drop_last() =~= js.take(k));
        lemma_games_prefix_none(js, k + 1);
    } else {
        assert(js.take(k) =~= js);
    }
}

/// Decodes a sequence of games.
pub fn games_of_json(vs: &Vec<JsonValue>) -> (r: Option<Vec<Game>>)
    ensures
        (match r {
            Some(gs) => spec_games_of(seq_model(vs@)) == Some(seq_view(gs@)),
            None => spec_games_of(seq_model(vs@)) is None,
        }),
{
    let ghost js = seq_model(vs@);
    let mut out: Vec<Game> = Vec::new();
    proof {
        assert(js.take(0) =~= Seq::empty());
        assert(seq_view(out@) =~= Seq::empty());
    }
    let mut k: usize = 0;
    while k < vs.len()
        invariant
            k <= vs@.len(),
            js == seq_model(vs@),
            js.len() == vs@.len(),
            spec_games_of(js.take(k as int)) == Some(seq_view(out@)),
        decreases vs@.len() - k,
    {
        proof {
            assert(js.take(k + 1).drop_last() =~= js.take(k as int));
            assert(js.take(k + 1).last() == js[k as int]);
        }
        match game_of_json(&vs[k]) {
            None => {
                proof {
                    lemma_games_prefix_none(js, k + 1);
                }
                return None;
            },
            Some(g) => {
                let ghost old_out = out@;
                out.push(g);
                proof {
                    assert(seq_view(out@) =~= seq_view(old_out).push(g@));
                }
                k = k + 1;
            },
        }
    }
    proof {
        assert(js.take(k as int) =~= js);
    }
    Some(out)
}

/// The envelope denoted by a JSON document.
pub open spec fn spec_game_response_of(j: Json) -> Option<GameResponseModel> {
    match j {
        Json::Obj(fs) => match spec_obj_get(fs, "data"@) {
            Some(Json::Arr(items)) => match spec_games_of(items) {
                None => None,
                Some(data) => match spec_field_i64(fs, "total"@) {
                    None => None,
                    Some(total) => Some(GameResponseModel { data, total }),
                },
            },
            _ => None,
        },
        _ => None,
    }
}

/// Decodes the game response envelope.
pub fn game_response_of_json(v: &JsonValue) -> (r: Option<GameResponse>)
    ensures
        (match r {
            Some(resp) => spec_game_response_of(v.model()) == Some(resp@),
            None => spec_game_response_of(v.model()) is None,
        }),
{
    let fs = match v {
        JsonValue::Obj(fs) => fs,
        _ => {
            return None;
        },
    };
    proof {
        lemma_obj_model(*fs);
    }
    let items = match obj_get(fs, "data") {
        Some(JsonValue::Arr(items)) => items,
        _ => {
            return None;
        },
    };
    proof {
        lemma_arr_model(*items);
    }
    let data = match games_of_json(items) {
        Some(d) => d,
        None => {
            return None;
        },
    };
    let total = match field_i64(fs, "total") {
        Some(t) => t,
        None => {
            return None;
        },
    };
    Some(GameResponse { data, total })
}

/// The collection owed for an outcome of the game endpoint.
pub open spec fn spec_get_games(o: OutcomeModel) -> Result<Seq<GameModel>, u16> {
    match spec_fetch_json(o) {
        Err(e) => Err(e),
        Ok(j) => match spec_game_response_of(j) {
            None => Err(STATUS_BAD_REQUEST),
            Some(resp) => Ok(resp.data),
        },
    }
}

/// Matches a game by its identifier.
pub open spec fn game_id_pred(id: int) -> spec_fn(GameModel) -> bool {
    |g: GameModel| g.id == id
}

/// Matches a game in which the team took part, at home or visiting.
pub open spec fn game_team_pred(team: int) -> spec_fn(GameModel) -> bool {
    |g: GameModel| g.home_team_id == team || g.visiting_team_id == team
}

/// Matches a game of the given season.
pub open spec fn game_season_pred(season: int) -> spec_fn(GameModel) -> bool {
    |g: GameModel| g.season == season
}

/// Hands out a copy of one fetched game.
fn game_copy(list: &Vec<Game>, k: usize) -> (r: Game)
    requires
        k < list@.len(),
    ensures
        r@ == list@[k as int]@,
{
    let g = &list[k];
    Game {
        id: g.id,
        eastern_start_time: g.eastern_start_time.clone(),
        game_date: g.game_date.clone(),
        game_number: g.game_number,
        game_schedule_state_id: g.game_schedule_state_id,
        game_state_id: g.game_state_id,
        game_type: g.game_type,
        home_score: g.home_score,
        home_team_id: g.home_team_id,
        period: g.period,
        season: g.season,
        visiting_score: g.visiting_score,
        visiting_team_id: g.visiting_team_id,
    }
}

impl Client {
    /// The URL the game collection is fetched from.
    pub fn games_url(&self) -> (r: String)
        ensures
            r@ == spec_resource_url(self.stats_base_url@, self.language@, "game"@),
    {
        self.resource_url("game")
    }

    /// The URL the game metadata is fetched from.
    pub fn game_metadata_url(&self) -> (r: String)
        ensures
            r@ == spec_resource_url(self.stats_base_url@, self.language@, "game/meta"@),
    {
        self.resource_url("game/meta")
    }

    /// Get most games in existence (both played and scheduled), from what
    /// the game endpoint's GET came back with.
    ///
    /// # Errors
    /// If the upstream API answers with an error, then the corresponding
    /// HTTP error code is returned.
    pub fn get_games(&self, outcome: HttpOutcome) -> (r: Result<Vec<Game>, u16>)
        ensures
            (match r {
                Ok(gs) => spec_get_games(outcome.model()) == Ok::<_, u16>(seq_view(gs@)),
                Err(e) => spec_get_games(outcome.model()) == Err::<Seq<GameModel>, _>(e),
            }),
    {
        let j = match fetch_json(outcome) {
            Ok(j) => j,
            Err(e) => {
                return Err(e);
            },
        };
        match game_response_of_json(&j) {
            Some(resp) => Ok(resp.data),
            None => Err(STATUS_BAD_REQUEST),
        }
    }

    /// Get a game by the `id`.
    ///
    /// # Errors
    /// If the upstream API answers with an error, then the corresponding
    /// HTTP error code is returned.
    pub fn get_game_by_id(&self, outcome: HttpOutcome, id: i64) -> (r: Result<Option<Game>, u16>)
        ensures
            (match r {
                Ok(g) => {
                    &&& spec_get_games(outcome.model()) matches Ok(gs)
                    &&& opt_view(g) == find_first(gs, game_id_pred(id as int))
                },
                Err(e) => spec_get_games(outcome.model()) == Err::<Seq<GameModel>, _>(e),
            }),
    {
        let mut list = match self.get_games(outcome) {
            Ok(l) => l,
            Err(e) => {
                return Err(e);
            },
        };
        let ghost gs = seq_view(list@);
        let ghost pred = game_id_pred(id as int);
        proof {
            assert(gs.skip(0) =~= gs);
        }
        let mut k: usize = 0;
        while k < list.len()
            invariant
                k <= list@.len(),
                gs == seq_view(list@),
                gs.len() == list@.len(),
                spec_get_games(outcome.model()) == Ok::<_, u16>(gs),
                pred == game_id_pred(id as int),
                find_first(gs, pred) == find_first(gs.skip(k as int), pred),
            decreases list@.len() - k,
        {
            if list[k].id == id {
                proof {
                    lemma_find_first_skip_found(gs, pred, k as int);
                }
                let g = list.remove(k);
                return Ok(Some(g));
            }
            proof {
                lemma_find_first_skip_step(gs, pred, k as int);
            }
            k = k + 1;
        }
        proof {
            assert(gs.skip(k as int) =~= Seq::empty());
        }
        Ok(None)
    }

    /// Get all games for a team by their team `id`: the games in which
    /// that team is the home or the visiting participant.
    ///
    /// # Errors
    /// If the upstream API answers with an error, then the corresponding
    /// HTTP error code is returned.
    pub fn get_games_for_team_by_team_id(&self, outcome: HttpOutcome, id: i64) -> (r: Result<
        Vec<Game>,
        u16,
    >)
        ensures
            (match r {
                Ok(gs) => {
                    &&& spec_get_games(outcome.model()) matches Ok(all)
                    &&& seq_view(gs@) == all.filter(game_team_pred(id as int))
                },
                Err(e) => spec_get_games(outcome.model()) == Err::<Seq<GameModel>, _>(e),
            }),
    {
        let mut list = match self.get_games(outcome) {
            Ok(l) => l,
            Err(e) => {
                return Err(e);
            },
        };
        let ghost gs = seq_view(list@);
        let ghost pred = game_team_pred(id as int);
        let mut out: Vec<Game> = Vec::new();
        proof {
            assert(gs.take(0) =~= Seq::empty());
            assert(gs.take(0).filter(pred) =~= Seq::empty());
            assert(seq_view(out@) =~= Seq::empty());
        }
        let mut k: usize = 0;
        while k < list.len()
            invariant
                k <= list@.len(),
                gs == seq_view(list@),
                gs.len() == list@.len(),
                spec_get_games(outcome.model()) == Ok::<_, u16>(gs),
                pred == game_team_pred(id as int),
                seq_view(out@) == gs.take(k as int).filter(pred),
            decreases list@.len() - k,
        {
            proof {
                lemma_filter_take_step(gs, pred, k as int);
            }
            if list[k].home_team_id == id || list[k].visiting_team_id == id {
                let ghost old_out = out@;
                let g = game_copy(&list, k);
                out.push(g);
                proof {
                    assert(seq_view(out@) =~= seq_view(old_out).push(gs[k as int]));
                }
            }
            k = k + 1;
        }
        proof {
            assert(gs.take(k as int) =~= gs);
        }
        Ok(out)
    }

    /// Get all games for a season by the season `id`: the games whose
    /// season field equals the queried id exactly.
    ///
    /// # Errors
    /// If the upstream API answers with an error, then the corresponding
    /// HTTP error code is returned.
    pub fn get_games_for_season_by_id(&self, outcome: HttpOutcome, id: i64) -> (r: Result<
        Vec<Game>,
        u16,
    >)
        ensures
            (match r {
                Ok(gs) => {
                    &&& spec_get_games(outcome.model()) matches Ok(all)
                    &&& seq_view(gs@) == all.filter(game_season_pred(id as int))
                },
                Err(e) => spec_get_games(outcome.model()) == Err::<Seq<GameModel>, _>(e),
            }),
    {
        let mut list = match self.get_games(outcome) {
            Ok(l) => l,
            Err(e) => {
                return Err(e);
            },
        };
        let ghost gs = seq_view(list@);
        let ghost pred = game_season_pred(id as int);
        let mut out: Vec<Game> = Vec::new();
        proof {
            assert(gs.take(0) =~= Seq::empty());
            assert(gs.take(0).filter(pred) =~= Seq::empty());
            assert(seq_view(out@) =~= Seq::empty());
        }
        let mut k: usize = 0;
        while k < list.len()
            invariant
                k <= list@.len(),
                gs == seq_view(list@),
                gs.len() == list@.len(),
                spec_get_games(outcome.model()) == Ok::<_, u16>(gs),
                pred == game_season_pred(id as int),
                seq_view(out@) == gs.take(k as int).filter(pred),
            decreases list@.len() - k,
        {
            proof {
                lemma_filter_take_step(gs, pred, k as int);
            }
            if list[k].season == id {
                let ghost old_out = out@;
                let g = game_copy(&list, k);
                out.push(g);
                proof {
                    assert(seq_view(out@) =~= seq_view(old_out).push(gs[k as int]));
                }
            }
            k = k + 1;
        }
        proof {
            assert(gs.take(k as int) =~= gs);
        }
        Ok(out)
    }
}

/// Law: a lookup by team id returns only games in which that team is the
/// home or the visiting participant, and every such game of the fetched
/// collection.
pub proof fn lemma_team_games(gs: Seq<GameModel>, team: int)
    ensures
        forall|g: GameModel|
            #[trigger] gs.filter(game_team_pred(team)).contains(g) ==> gs.contains(g) && (
            g.home_team_id == team || g.visiting_team_id == team),
        forall|g: GameModel|
            gs.contains(g) && (g.home_team_id == team || g.visiting_team_id == team)
                ==> #[trigger] gs.filter(game_team_pred(team)).contains(g),
{
    lemma_filter_membership(gs, game_team_pred(team));
}

/// Law: a lookup by season id returns only games whose season field
/// equals the queried id exactly, and every such game of the fetched
/// collection.
pub proof fn lemma_season_games(gs: Seq<GameModel>, season: int)
    ensures
        forall|g: GameModel|
            #[trigger] gs.filter(game_season_pred(season)).contains(g) ==> gs.contains(g)
                && g.season == season,
        forall|g: GameModel|
            gs.contains(g) && g.season == season ==> #[trigger] gs.filter(
                game_season_pred(season),
            ).contains(g),
{
    lemma_filter_membership(gs, game_season_pred(season));
}

/// Law: the accessor surfaces every transport or decode failure as the
/// pathway's error code — an upstream error status as itself, and a body
/// that does not decode into the expected shape as the bad-request code.
pub proof fn lemma_games_error_mapping(o: OutcomeModel)
    ensures
        spec_fetch_json(o) matches Err(e) ==> spec_get_games(o) == Err::<Seq<GameModel>, u16>(e),
        (spec_fetch_json(o) matches Ok(j) && spec_game_response_of(j) is None) ==> spec_get_games(o) == Err::<Seq<GameModel>, u16>(
            STATUS_BAD_REQUEST,
        ),
{
}

} // verus!
