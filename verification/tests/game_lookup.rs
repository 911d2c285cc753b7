use nhl_rs::http::HttpOutcome;
use nhl_rs::{Client, ClientBuilder};

fn client() -> Client {
    ClientBuilder::new().build()
}

fn game_json(id: i64, home: i64, visiting: i64, season: i64) -> String {
    format!(
        "{{\"id\":{},\"easternStartTime\":\"19:00\",\"gameDate\":\"2022-10-01\",\"gameNumber\":1,\
         \"gameScheduleStateId\":1,\"gameStateId\":7,\"gameType\":2,\"homeScore\":3,\
         \"homeTeamId\":{},\"period\":3,\"season\":{},\"visitingScore\":2,\"visitingTeamId\":{}}}",
        id, home, season, visiting
    )
}

fn fixture() -> String {
    format!(
        "{{\"data\":[{},{},{},{}],\"total\":4}}",
        game_json(2022020001, 12, 7, 20222023),
        game_json(2022020002, 7, 9, 20222023),
        game_json(2021020001, 12, 9, 20212022),
        game_json(2022020003, 9, 5, 20222023),
    )
}

fn ok(body: String) -> HttpOutcome {
    HttpOutcome::Response { status: 200, body }
}

#[test]
fn games_decode_in_order() {
    let gs = client().get_games(ok(fixture())).unwrap();
    assert_eq!(gs.len(), 4);
    assert_eq!(gs[0].id, 2022020001);
    assert_eq!(gs[0].period, Some(3));
    assert_eq!(gs[3].visiting_team_id, 5);
}

#[test]
fn game_by_id_finds_the_game() {
    let g = client().get_game_by_id(ok(fixture()), 2021020001).unwrap().unwrap();
    assert_eq!(g.season, 20212022);
    assert_eq!(client().get_game_by_id(ok(fixture()), 1), Ok(None));
}

#[test]
fn games_for_team_contain_exactly_that_teams_games() {
    let gs = client().get_games_for_team_by_team_id(ok(fixture()), 12).unwrap();
    assert_eq!(gs.len(), 2);
    for g in &gs {
        assert!(g.home_team_id == 12 || g.visiting_team_id == 12);
    }
    assert_eq!(gs[0].id, 2022020001);
    assert_eq!(gs[1].id, 2021020001);

    let gs9 = client().get_games_for_team_by_team_id(ok(fixture()), 9).unwrap();
    assert_eq!(gs9.len(), 3);

    let none = client().get_games_for_team_by_team_id(ok(fixture()), 99).unwrap();
    assert!(none.is_empty());
}

#[test]
fn games_for_season_match_the_season_exactly() {
    let gs = client().get_games_for_season_by_id(ok(fixture()), 20222023).unwrap();
    assert_eq!(gs.len(), 3);
    for g in &gs {
        assert_eq!(g.season, 20222023);
    }
    let old = client().get_games_for_season_by_id(ok(fixture()), 20212022).unwrap();
    assert_eq!(old.len(), 1);
    assert_eq!(old[0].id, 2021020001);
}

#[test]
fn game_without_period_decodes_to_none() {
    let body = String::from(
        "{\"data\":[{\"id\":1,\"easternStartTime\":\"19:00\",\"gameDate\":\"2022-10-01\",\
         \"gameNumber\":1,\"gameScheduleStateId\":1,\"gameStateId\":1,\"gameType\":2,\
         \"homeScore\":0,\"homeTeamId\":1,\"period\":null,\"season\":20222023,\
         \"visitingScore\":0,\"visitingTeamId\":2}],\"total\":1}",
    );
    let gs = client().get_games(ok(body)).unwrap();
    assert_eq!(gs[0].period, None);
}

#[test]
fn game_metadata_decodes_the_schema_description() {
    let body = String::from(
        "{\"entity\":{\"name\":\"Game\",\"properties\":[{\"name\":\"id\",\"type\":\"number\",\
         \"format\":null,\"relationship\":null},{\"name\":\"gameDate\",\"type\":\"string\",\
         \"format\":\"date\",\"relationship\":false}]},\"links\":[{\"href\":\"/game\",\"type\":\
         \"rel\",\"operations\":[{\"method\":\"GET\"}]}]}",
    );
    let meta = client().get_game_metadata(ok(body)).unwrap();
    assert_eq!(meta.entity.name, "Game");
    assert_eq!(meta.entity.properties.len(), 2);
    assert_eq!(meta.entity.properties[0].name, "id");
    assert_eq!(meta.entity.properties[1].format.as_deref(), Some("date"));
    assert_eq!(meta.entity.properties[1].relationship, Some(false));
    assert_eq!(meta.links.len(), 1);
    assert_eq!(meta.links[0].operations[0].method, "GET");
}

#[test]
fn game_metadata_missing_entity_fails_decode() {
    let body = String::from("{\"links\":[]}");
    assert_eq!(client().get_game_metadata(ok(body)), Err(400));
}
